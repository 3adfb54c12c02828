//! A verified editor core for a fixed-layout, encrypted, checksummed game
//! save container.
//!
//! The container is a header followed by twelve encrypted sections: a profile
//! summary, a regulation archive, and ten per-character records.  This crate
//! parses the container into typed state, lets callers edit that state, and
//! re-serializes it deterministically; sections that were never edited are
//! written back byte-for-byte.

pub mod layout;
pub mod wire;
pub mod crypto;
pub mod section;
pub mod profile;
pub mod character;
pub mod flags;
pub mod compress;
pub mod regulation;
pub mod save;
pub mod params;
pub mod names;
pub mod api;

pub use api::{SaveApi, SaveApiError};
pub use layout::SaveType;
pub use params::Param;
pub use save::Save;
