//! Fixed numbers of the save-file layout.
//!
//! The container comes in two variants that differ only in the header length
//! and in the width of the per-section checksum; everything else about the
//! layout is shared.  All multi-byte integers in the file are little-endian.

use vstd::prelude::*;

verus! {

/// Header length of a PC save.
pub const HEADER_LEN_PC: usize = 112;

/// Header length of a console save; this value alone marks the variant.
pub const HEADER_LEN_PS: usize = 108;

/// Length of the initialization vector stored at the front of each
/// section's ciphertext.
pub const IV_LEN: usize = 16;

/// Checksum width on PC saves (an MD5 digest).
pub const CHECKSUM_LEN_PC: usize = 16;

/// Checksum width on console saves (a SHA-256 digest).
pub const CHECKSUM_LEN_PS: usize = 32;

/// Plaintext length of the profile-summary section.
pub const PROFILE_PT_LEN: usize = 448;

/// Plaintext length of the regulation section.
pub const REGULATION_PT_LEN: usize = 4096;

/// Plaintext length of one character section.
pub const CHAR_PT_LEN: usize = 1600;

/// Number of character slots.
pub const CHAR_SLOTS: usize = 10;

/// Byte length of a stored character name (both in a character record and in
/// a profile entry): a zero-padded field.
pub const NAME_LEN: usize = 32;

/// Byte length of the bit-packed event-flag block inside a character record.
pub const FLAG_BLOCK_LEN: usize = 512;

/// Bytes of a character record that precede the equipped-gesture count:
/// the name, two one-byte fields, a two-byte reserved field, twenty 32-bit
/// fields, then the flag block.
pub const CHAR_FIXED_LEN: usize = 628;

/// Capacity shared by the two variable-length id lists and the trailing
/// `rest` region of a character record: `CHAR_PT_LEN` minus the fixed part
/// and the two count fields.
pub const CHAR_VAR_CAP: usize = 964;

/// Byte length of one profile entry.
pub const PROFILE_ENTRY_LEN: usize = 42;

/// Offset of the first profile entry inside the profile-summary plaintext
/// (after the 64-bit steam id and the ten activity bytes).
pub const PROFILE_ENTRIES_OFF: usize = 18;

/// Total file length of a PC save.
pub const TOTAL_LEN_PC: usize = 21040;

/// Total file length of a console save.
pub const TOTAL_LEN_PS: usize = 21228;

/// Length of a name field in an archive entry or a param-table directory.
pub const ENTRY_NAME_LEN: usize = 16;

/// The two supported save variants.
#[derive(Debug, PartialEq, Eq, Structural, Clone, Copy)]
pub enum SaveType {
    PC,
    Playstation,
}

impl SaveType {
    /// Checksum width of this variant.
    pub open spec fn spec_checksum_len(self) -> usize {
        match self {
            SaveType::PC => CHECKSUM_LEN_PC,
            SaveType::Playstation => CHECKSUM_LEN_PS,
        }
    }

    /// Checksum width of this variant.
    pub fn checksum_len(self) -> (r: usize)
        ensures
            r == self.spec_checksum_len(),
    {
        match self {
            SaveType::PC => CHECKSUM_LEN_PC,
            SaveType::Playstation => CHECKSUM_LEN_PS,
        }
    }

    /// Header length of this variant.
    pub open spec fn spec_header_len(self) -> usize {
        match self {
            SaveType::PC => HEADER_LEN_PC,
            SaveType::Playstation => HEADER_LEN_PS,
        }
    }

    /// Header length of this variant.
    pub fn header_len(self) -> (r: usize)
        ensures
            r == self.spec_header_len(),
    {
        match self {
            SaveType::PC => HEADER_LEN_PC,
            SaveType::Playstation => HEADER_LEN_PS,
        }
    }

    /// On-disk length of a section with plaintext length `pt_len`:
    /// checksum, then IV, then ciphertext of the same length as the
    /// plaintext.
    pub open spec fn spec_section_len(self, pt_len: int) -> int {
        self.spec_checksum_len() + IV_LEN + pt_len
    }

    /// Total file length of this variant.
    pub open spec fn spec_total_len(self) -> usize {
        match self {
            SaveType::PC => TOTAL_LEN_PC,
            SaveType::Playstation => TOTAL_LEN_PS,
        }
    }
}

} // verus!
