//! Profile-summary section: the 64-bit platform account id, ten activity
//! bytes (one per character slot), and ten fixed-size profile entries that
//! mirror a few fields of the corresponding character records.
//!
//! The profile summary is a projection: character records are the source of
//! truth, and every mutating accessor of the facade writes both in lockstep.

use crate::layout::{
    CHAR_SLOTS, NAME_LEN, PROFILE_ENTRIES_OFF, PROFILE_ENTRY_LEN, PROFILE_PT_LEN,
};
use crate::wire::{push_bytes, push_u32, push_u64, read_u32, read_u64, take_bytes, u32_at, u64_at};
use vstd::bytes::{spec_u32_to_le_bytes, spec_u64_to_le_bytes};
use vstd::prelude::*;

verus! {

/// One mirrored entry of the profile summary.
pub struct ProfileEntry {
    pub character_name: Vec<u8>,
    pub level: u32,
    pub gender: u8,
    pub archetype: u8,
    pub runes_memory: u32,
}

/// The profile-summary payload: activity bytes and the ten entries.
pub struct ProfileSummary {
    pub active_profiles: Vec<u8>,
    pub profiles: Vec<ProfileEntry>,
}

/// The decoded profile-summary section.
pub struct UserData10 {
    /// On-disk image this section was loaded from.
    pub raw: Vec<u8>,
    /// IV stored in `raw`; preserved across re-encodes.
    pub iv: Vec<u8>,
    /// Whether the stored checksum matched at load time.
    pub is_valid: bool,
    /// Whether the decoded state was edited since load.
    pub dirty: bool,
    pub steam_id: u64,
    pub profile_summary: ProfileSummary,
    /// Trailing plaintext bytes after the last entry, preserved verbatim.
    pub tail: Vec<u8>,
}

impl ProfileEntry {
    pub open spec fn wf(self) -> bool {
        self.character_name@.len() == NAME_LEN
    }
}

impl ProfileSummary {
    pub open spec fn wf(self) -> bool {
        &&& self.active_profiles@.len() == CHAR_SLOTS
        &&& self.profiles@.len() == CHAR_SLOTS
        &&& forall|k: int| 0 <= k < CHAR_SLOTS ==> (#[trigger] self.profiles@[k]).wf()
    }
}

/// The serialized bytes of one profile entry.
pub open spec fn ser_profile_entry(e: ProfileEntry) -> Seq<u8> {
    e.character_name@ + spec_u32_to_le_bytes(e.level) + seq![e.gender, e.archetype]
        + spec_u32_to_le_bytes(e.runes_memory)
}

/// The serialized bytes of a prefix of the entry list.
pub open spec fn ser_profile_entries(entries: Seq<ProfileEntry>) -> Seq<u8>
    decreases entries.len(),
{
    if entries.len() == 0 {
        Seq::empty()
    } else {
        ser_profile_entries(entries.drop_last()) + ser_profile_entry(entries.last())
    }
}

/// The whole plaintext of the profile-summary section.
pub open spec fn ser_profile_pt(u: UserData10) -> Seq<u8> {
    spec_u64_to_le_bytes(u.steam_id) + u.profile_summary.active_profiles@
        + ser_profile_entries(u.profile_summary.profiles@) + u.tail@
}

pub proof fn lemma_ser_profile_entry_len(e: ProfileEntry)
    requires
        e.wf(),
    ensures
        ser_profile_entry(e).len() == PROFILE_ENTRY_LEN,
{
    vstd::bytes::lemma_auto_spec_u32_to_from_le_bytes();
}

pub proof fn lemma_ser_profile_entries_len(entries: Seq<ProfileEntry>)
    requires
        forall|k: int| 0 <= k < entries.len() ==> (#[trigger] entries[k]).wf(),
    ensures
        ser_profile_entries(entries).len() == PROFILE_ENTRY_LEN * entries.len(),
    decreases entries.len(),
{
    if entries.len() > 0 {
        lemma_ser_profile_entries_len(entries.drop_last());
        lemma_ser_profile_entry_len(entries.last());
    }
}

pub proof fn lemma_ser_profile_entries_push(entries: Seq<ProfileEntry>, e: ProfileEntry)
    ensures
        ser_profile_entries(entries.push(e)) == ser_profile_entries(entries)
            + ser_profile_entry(e),
{
    assert(entries.push(e).drop_last() =~= entries);
    assert(entries.push(e).last() == e);
}

impl UserData10 {
    /// Everything the rest of the crate may assume about a loaded
    /// profile-summary section.
    pub open spec fn wf(self, variant: crate::layout::SaveType) -> bool {
        &&& self.raw@.len() == variant.spec_section_len(PROFILE_PT_LEN as int)
        &&& self.iv@.len() == crate::layout::IV_LEN
        &&& self.profile_summary.wf()
        &&& self.tail@.len() == PROFILE_PT_LEN - PROFILE_ENTRIES_OFF - CHAR_SLOTS
            * PROFILE_ENTRY_LEN
    }

    /// The current plaintext of this section.
    pub open spec fn plaintext(self) -> Seq<u8> {
        ser_profile_pt(self)
    }

    pub proof fn lemma_plaintext_len(self, variant: crate::layout::SaveType)
        requires
            self.wf(variant),
        ensures
            self.plaintext().len() == PROFILE_PT_LEN,
    {
        vstd::bytes::lemma_auto_spec_u64_to_from_le_bytes();
        lemma_ser_profile_entries_len(self.profile_summary.profiles@);
    }

    /// Serialize the decoded state back into plaintext bytes.
    pub fn serialize_pt(&self) -> (r: Vec<u8>)
        ensures
            r@ == self.plaintext(),
    {
        let mut out: Vec<u8> = Vec::new();
        push_u64(&mut out, self.steam_id);
        push_bytes(&mut out, &self.profile_summary.active_profiles);
        let base = out.len();
        let ghost head = out@;
        let mut i: usize = 0;
        while i < self.profile_summary.profiles.len()
            invariant
                i <= self.profile_summary.profiles@.len(),
                out@ == head + ser_profile_entries(self.profile_summary.profiles@.subrange(
                    0,
                    i as int,
                )),
            decreases self.profile_summary.profiles@.len() - i,
        {
            let e = &self.profile_summary.profiles[i];
            let ghost pre = out@;
            push_bytes(&mut out, &e.character_name);
            push_u32(&mut out, e.level);
            out.push(e.gender);
            out.push(e.archetype);
            push_u32(&mut out, e.runes_memory);
            proof {
                let ghost entries = self.profile_summary.profiles@;
                assert(out@ =~= pre + ser_profile_entry(entries[i as int]));
                assert(entries.subrange(0, i + 1 as int) =~= entries.subrange(0, i as int).push(
                    entries[i as int],
                ));
                lemma_ser_profile_entries_push(entries.subrange(0, i as int), entries[i as int]);
            }
            i = i + 1;
        }
        proof {
            assert(self.profile_summary.profiles@.subrange(
                0,
                self.profile_summary.profiles@.len() as int,
            ) =~= self.profile_summary.profiles@);
        }
        push_bytes(&mut out, &self.tail);
        proof {
            assert(out@ =~= self.plaintext());
        }
        out
    }
}

/// Decode the profile-summary plaintext.  The caller supplies the section
/// bookkeeping (`raw`, `iv`, `is_valid`); the result is never dirty.
pub fn parse_profile_pt(pt: &Vec<u8>, raw: Vec<u8>, iv: Vec<u8>, is_valid: bool) -> (u: UserData10)
    requires
        pt@.len() == PROFILE_PT_LEN,
    ensures
        u.raw == raw,
        u.iv == iv,
        u.is_valid == is_valid,
        !u.dirty,
        u.profile_summary.wf(),
        u.tail@.len() == PROFILE_PT_LEN - PROFILE_ENTRIES_OFF - CHAR_SLOTS * PROFILE_ENTRY_LEN,
        u.steam_id == u64_at(pt@, 0),
        u.profile_summary.active_profiles@ == pt@.subrange(8, PROFILE_ENTRIES_OFF as int),
        forall|k: int|
            0 <= k < CHAR_SLOTS ==> profile_entry_matches(
                #[trigger] u.profile_summary.profiles@[k],
                pt@,
                PROFILE_ENTRIES_OFF + k * PROFILE_ENTRY_LEN,
            ),
        u.tail@ == pt@.subrange(
            PROFILE_ENTRIES_OFF + CHAR_SLOTS * PROFILE_ENTRY_LEN,
            PROFILE_PT_LEN as int,
        ),
        u.plaintext() == pt@,
{
    let steam_id = read_u64(pt, 0);
    let active_profiles = take_bytes(pt, 8, CHAR_SLOTS);
    let mut profiles: Vec<ProfileEntry> = Vec::new();
    let mut k: usize = 0;
    while k < CHAR_SLOTS
        invariant
            k <= CHAR_SLOTS,
            pt@.len() == PROFILE_PT_LEN,
            profiles@.len() == k,
            forall|j: int| 0 <= j < k ==> (#[trigger] profiles@[j]).wf(),
            forall|j: int|
                0 <= j < k ==> profile_entry_matches(
                    #[trigger] profiles@[j],
                    pt@,
                    PROFILE_ENTRIES_OFF + j * PROFILE_ENTRY_LEN,
                ),
        decreases CHAR_SLOTS - k,
    {
        let base = PROFILE_ENTRIES_OFF + k * PROFILE_ENTRY_LEN;
        let character_name = take_bytes(pt, base, NAME_LEN);
        let level = read_u32(pt, base + 32);
        let gender = pt[base + 36];
        let archetype = pt[base + 37];
        let runes_memory = read_u32(pt, base + 38);
        profiles.push(
            ProfileEntry { character_name, level, gender, archetype, runes_memory },
        );
        k = k + 1;
    }
    let tail = take_bytes(
        pt,
        PROFILE_ENTRIES_OFF + CHAR_SLOTS * PROFILE_ENTRY_LEN,
        PROFILE_PT_LEN - PROFILE_ENTRIES_OFF - CHAR_SLOTS * PROFILE_ENTRY_LEN,
    );
    let u = UserData10 {
        raw,
        iv,
        is_valid,
        dirty: false,
        steam_id,
        profile_summary: ProfileSummary { active_profiles, profiles },
        tail,
    };
    proof {
        lemma_profile_roundtrip(u, pt@);
    }
    u
}

/// `e` holds exactly what the entry window at `base` of `pt` stores.
pub open spec fn profile_entry_matches(e: ProfileEntry, pt: Seq<u8>, base: int) -> bool {
    &&& e.character_name@ == pt.subrange(base, base + NAME_LEN)
    &&& e.level == u32_at(pt, base + 32)
    &&& e.gender == pt[base + 36]
    &&& e.archetype == pt[base + 37]
    &&& e.runes_memory == u32_at(pt, base + 38)
}

/// A decoded profile section whose fields all match their windows of `pt`
/// serializes back to exactly `pt`.
proof fn lemma_profile_roundtrip(u: UserData10, pt: Seq<u8>)
    requires
        pt.len() == PROFILE_PT_LEN,
        u.profile_summary.wf(),
        u.steam_id == u64_at(pt, 0),
        u.profile_summary.active_profiles@ == pt.subrange(8, PROFILE_ENTRIES_OFF as int),
        forall|k: int|
            0 <= k < CHAR_SLOTS ==> profile_entry_matches(
                #[trigger] u.profile_summary.profiles@[k],
                pt,
                PROFILE_ENTRIES_OFF + k * PROFILE_ENTRY_LEN,
            ),
        u.tail@ == pt.subrange(
            PROFILE_ENTRIES_OFF + CHAR_SLOTS * PROFILE_ENTRY_LEN,
            PROFILE_PT_LEN as int,
        ),
    ensures
        u.plaintext() == pt,
{
    vstd::bytes::lemma_auto_spec_u64_to_from_le_bytes();
    vstd::bytes::lemma_auto_spec_u32_to_from_le_bytes();
    assert(spec_u64_to_le_bytes(u.steam_id) =~= pt.subrange(0, 8));
    lemma_ser_entries_window(u.profile_summary.profiles@, pt, CHAR_SLOTS as int);
    assert(u.profile_summary.profiles@.subrange(0, CHAR_SLOTS as int)
        =~= u.profile_summary.profiles@);
    lemma_ser_profile_entries_len(u.profile_summary.profiles@);
    let a = spec_u64_to_le_bytes(u.steam_id);
    let b = u.profile_summary.active_profiles@;
    let c = ser_profile_entries(u.profile_summary.profiles@);
    let d = u.tail@;
    assert(a + b =~= pt.subrange(0, PROFILE_ENTRIES_OFF as int));
    assert((a + b) + c =~= pt.subrange(
        0,
        PROFILE_ENTRIES_OFF + CHAR_SLOTS * PROFILE_ENTRY_LEN,
    ));
    assert(((a + b) + c) + d =~= pt);
    assert(u.plaintext() == ((a + b) + c) + d);
}

/// The first `n` entries serialize to the window they were read from.
proof fn lemma_ser_entries_window(entries: Seq<ProfileEntry>, pt: Seq<u8>, n: int)
    requires
        pt.len() == PROFILE_PT_LEN,
        0 <= n <= CHAR_SLOTS,
        entries.len() >= n,
        forall|k: int| 0 <= k < n ==> (#[trigger] entries[k]).wf(),
        forall|k: int|
            0 <= k < n ==> profile_entry_matches(
                #[trigger] entries[k],
                pt,
                PROFILE_ENTRIES_OFF + k * PROFILE_ENTRY_LEN,
            ),
    ensures
        ser_profile_entries(entries.subrange(0, n)) == pt.subrange(
            PROFILE_ENTRIES_OFF as int,
            PROFILE_ENTRIES_OFF + n * PROFILE_ENTRY_LEN,
        ),
    decreases n,
{
    vstd::bytes::lemma_auto_spec_u32_to_from_le_bytes();
    if n == 0 {
        assert(ser_profile_entries(entries.subrange(0, 0)) =~= pt.subrange(
            PROFILE_ENTRIES_OFF as int,
            PROFILE_ENTRIES_OFF as int,
        ));
    } else {
        lemma_ser_entries_window(entries, pt, n - 1);
        let prefix = entries.subrange(0, n - 1);
        let e = entries[n - 1];
        assert(entries.subrange(0, n) =~= prefix.push(e));
        lemma_ser_profile_entries_push(prefix, e);
        let base = PROFILE_ENTRIES_OFF + (n - 1) * PROFILE_ENTRY_LEN;
        assert(ser_profile_entry(e) =~= pt.subrange(base, base + PROFILE_ENTRY_LEN));
        assert(pt.subrange(PROFILE_ENTRIES_OFF as int, base) + pt.subrange(
            base,
            base + PROFILE_ENTRY_LEN,
        ) =~= pt.subrange(PROFILE_ENTRIES_OFF as int, base + PROFILE_ENTRY_LEN));
    }
}

} // verus!
