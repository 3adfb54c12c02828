//! Character-record codec: the authoritative per-character state stored in
//! one character section's plaintext.
//!
//! The record is a fixed part (name, gender, archetype, a reserved field,
//! twenty 32-bit stats, the event-flag block), two variable-length id lists
//! (equipped gestures, unlocked regions), and a trailing opaque `rest`
//! region.  The recorded length of the id lists and the length of `rest`
//! are coupled: their combined size is a constant of the layout, so every
//! mutation that grows a list shrinks `rest` by the same number of bytes
//! and vice versa.

use crate::layout::{
    CHAR_FIXED_LEN, CHAR_PT_LEN, CHAR_VAR_CAP, FLAG_BLOCK_LEN, NAME_LEN,
};
use crate::wire::{
    flat_u32s, lemma_flat_u32s_len, push_bytes, push_u32, push_u32s, read_u32, read_u32s,
    take_bytes, u32_at,
};
use vstd::bytes::spec_u32_to_le_bytes;
use vstd::prelude::*;

verus! {

/// Fixed-size scalar state of one character.
pub struct PlayerGameData {
    pub character_name: Vec<u8>,
    pub gender: u8,
    pub archetype: u8,
    /// Two reserved bytes after the archetype, preserved verbatim.
    pub pad: Vec<u8>,
    pub hp: u32,
    pub max_hp: u32,
    pub base_max_hp: u32,
    pub fp: u32,
    pub max_fp: u32,
    pub base_max_fp: u32,
    pub sp: u32,
    pub max_sp: u32,
    pub base_max_sp: u32,
    pub level: u32,
    pub vigor: u32,
    pub mind: u32,
    pub endurance: u32,
    pub strength: u32,
    pub dexterity: u32,
    pub intelligence: u32,
    pub faith: u32,
    pub arcane: u32,
    pub runes: u32,
    pub runes_memory: u32,
}

/// The unlocked-region list: a recorded count and the ids, in file order.
pub struct UnlockedRegions {
    pub count: u32,
    pub ids: Vec<u32>,
}

/// One decoded character section.
pub struct UserDataX {
    /// On-disk image this section was loaded from.
    pub raw: Vec<u8>,
    /// IV stored in `raw`; preserved across re-encodes.
    pub iv: Vec<u8>,
    /// Whether the stored checksum matched at load time.
    pub is_valid: bool,
    /// Whether the decoded state was edited since load.
    pub dirty: bool,
    pub player_game_data: PlayerGameData,
    /// Bit-packed event-flag block.
    pub event_flags: Vec<u8>,
    pub equipped_gestures: Vec<u32>,
    pub unlocked_regions: UnlockedRegions,
    /// Opaque trailing region; its length keeps the record at
    /// `CHAR_PT_LEN` bytes.
    pub rest: Vec<u8>,
}

impl PlayerGameData {
    pub open spec fn wf(self) -> bool {
        &&& self.character_name@.len() == NAME_LEN
        &&& self.pad@.len() == 2
    }
}

/// The serialized bytes of the fixed scalar part of a record.
pub open spec fn ser_player(p: PlayerGameData) -> Seq<u8> {
    p.character_name@ + seq![p.gender, p.archetype] + p.pad@ + spec_u32_to_le_bytes(p.hp) + spec_u32_to_le_bytes(p.max_hp) + spec_u32_to_le_bytes(p.base_max_hp) + spec_u32_to_le_bytes(p.fp) + spec_u32_to_le_bytes(p.max_fp) + spec_u32_to_le_bytes(p.base_max_fp) + spec_u32_to_le_bytes(p.sp) + spec_u32_to_le_bytes(p.max_sp) + spec_u32_to_le_bytes(p.base_max_sp) + spec_u32_to_le_bytes(p.level) + spec_u32_to_le_bytes(p.vigor) + spec_u32_to_le_bytes(p.mind) + spec_u32_to_le_bytes(p.endurance) + spec_u32_to_le_bytes(p.strength) + spec_u32_to_le_bytes(p.dexterity) + spec_u32_to_le_bytes(p.intelligence) + spec_u32_to_le_bytes(p.faith) + spec_u32_to_le_bytes(p.arcane) + spec_u32_to_le_bytes(p.runes) + spec_u32_to_le_bytes(p.runes_memory)
}

/// `p` holds exactly what the fixed scalar windows at `base` of `pt` store.
pub open spec fn player_matches(p: PlayerGameData, pt: Seq<u8>, base: int) -> bool {
    &&& p.character_name@ == pt.subrange(base, base + NAME_LEN)
    &&& p.gender == pt[base + 32]
    &&& p.archetype == pt[base + 33]
    &&& p.pad@ == pt.subrange(base + 34, base + 36)
    &&& p.hp == u32_at(pt, base + 36)
    &&& p.max_hp == u32_at(pt, base + 40)
    &&& p.base_max_hp == u32_at(pt, base + 44)
    &&& p.fp == u32_at(pt, base + 48)
    &&& p.max_fp == u32_at(pt, base + 52)
    &&& p.base_max_fp == u32_at(pt, base + 56)
    &&& p.sp == u32_at(pt, base + 60)
    &&& p.max_sp == u32_at(pt, base + 64)
    &&& p.base_max_sp == u32_at(pt, base + 68)
    &&& p.level == u32_at(pt, base + 72)
    &&& p.vigor == u32_at(pt, base + 76)
    &&& p.mind == u32_at(pt, base + 80)
    &&& p.endurance == u32_at(pt, base + 84)
    &&& p.strength == u32_at(pt, base + 88)
    &&& p.dexterity == u32_at(pt, base + 92)
    &&& p.intelligence == u32_at(pt, base + 96)
    &&& p.faith == u32_at(pt, base + 100)
    &&& p.arcane == u32_at(pt, base + 104)
    &&& p.runes == u32_at(pt, base + 108)
    &&& p.runes_memory == u32_at(pt, base + 112)
}

pub proof fn lemma_ser_player_len(p: PlayerGameData)
    requires
        p.wf(),
    ensures
        ser_player(p).len() == 116,
{
    vstd::bytes::lemma_auto_spec_u32_to_from_le_bytes();
}

/// The fixed scalar part serializes back to the window it was read from.
pub proof fn lemma_ser_player_window(p: PlayerGameData, pt: Seq<u8>, base: int)
    requires
        player_matches(p, pt, base),
        0 <= base,
        base + 116 <= pt.len(),
    ensures
        ser_player(p) == pt.subrange(base, base + 116),
{
    vstd::bytes::lemma_auto_spec_u32_to_from_le_bytes();
    assert(p.character_name@ + seq![p.gender, p.archetype] + p.pad@ =~= pt.subrange(
        base,
        base + 36,
    ));
    assert(spec_u32_to_le_bytes(p.hp) == pt.subrange(base + 36, base + 40));
    assert(pt.subrange(base, base + 36) + pt.subrange(base + 36, base + 40) =~= pt.subrange(
        base,
        base + 40,
    ));
    assert(spec_u32_to_le_bytes(p.max_hp) == pt.subrange(base + 40, base + 44));
    assert(pt.subrange(base, base + 40) + pt.subrange(base + 40, base + 44) =~= pt.subrange(
        base,
        base + 44,
    ));
    assert(spec_u32_to_le_bytes(p.base_max_hp) == pt.subrange(base + 44, base + 48));
    assert(pt.subrange(base, base + 44) + pt.subrange(base + 44, base + 48) =~= pt.subrange(
        base,
        base + 48,
    ));
    assert(spec_u32_to_le_bytes(p.fp) == pt.subrange(base + 48, base + 52));
    assert(pt.subrange(base, base + 48) + pt.subrange(base + 48, base + 52) =~= pt.subrange(
        base,
        base + 52,
    ));
    assert(spec_u32_to_le_bytes(p.max_fp) == pt.subrange(base + 52, base + 56));
    assert(pt.subrange(base, base + 52) + pt.subrange(base + 52, base + 56) =~= pt.subrange(
        base,
        base + 56,
    ));
    assert(spec_u32_to_le_bytes(p.base_max_fp) == pt.subrange(base + 56, base + 60));
    assert(pt.subrange(base, base + 56) + pt.subrange(base + 56, base + 60) =~= pt.subrange(
        base,
        base + 60,
    ));
    assert(spec_u32_to_le_bytes(p.sp) == pt.subrange(base + 60, base + 64));
    assert(pt.subrange(base, base + 60) + pt.subrange(base + 60, base + 64) =~= pt.subrange(
        base,
        base + 64,
    ));
    assert(spec_u32_to_le_bytes(p.max_sp) == pt.subrange(base + 64, base + 68));
    assert(pt.subrange(base, base + 64) + pt.subrange(base + 64, base + 68) =~= pt.subrange(
        base,
        base + 68,
    ));
    assert(spec_u32_to_le_bytes(p.base_max_sp) == pt.subrange(base + 68, base + 72));
    assert(pt.subrange(base, base + 68) + pt.subrange(base + 68, base + 72) =~= pt.subrange(
        base,
        base + 72,
    ));
    assert(spec_u32_to_le_bytes(p.level) == pt.subrange(base + 72, base + 76));
    assert(pt.subrange(base, base + 72) + pt.subrange(base + 72, base + 76) =~= pt.subrange(
        base,
        base + 76,
    ));
    assert(spec_u32_to_le_bytes(p.vigor) == pt.subrange(base + 76, base + 80));
    assert(pt.subrange(base, base + 76) + pt.subrange(base + 76, base + 80) =~= pt.subrange(
        base,
        base + 80,
    ));
    assert(spec_u32_to_le_bytes(p.mind) == pt.subrange(base + 80, base + 84));
    assert(pt.subrange(base, base + 80) + pt.subrange(base + 80, base + 84) =~= pt.subrange(
        base,
        base + 84,
    ));
    assert(spec_u32_to_le_bytes(p.endurance) == pt.subrange(base + 84, base + 88));
    assert(pt.subrange(base, base + 84) + pt.subrange(base + 84, base + 88) =~= pt.subrange(
        base,
        base + 88,
    ));
    assert(spec_u32_to_le_bytes(p.strength) == pt.subrange(base + 88, base + 92));
    assert(pt.subrange(base, base + 88) + pt.subrange(base + 88, base + 92) =~= pt.subrange(
        base,
        base + 92,
    ));
    assert(spec_u32_to_le_bytes(p.dexterity) == pt.subrange(base + 92, base + 96));
    assert(pt.subrange(base, base + 92) + pt.subrange(base + 92, base + 96) =~= pt.subrange(
        base,
        base + 96,
    ));
    assert(spec_u32_to_le_bytes(p.intelligence) == pt.subrange(base + 96, base + 100));
    assert(pt.subrange(base, base + 96) + pt.subrange(base + 96, base + 100) =~= pt.subrange(
        base,
        base + 100,
    ));
    assert(spec_u32_to_le_bytes(p.faith) == pt.subrange(base + 100, base + 104));
    assert(pt.subrange(base, base + 100) + pt.subrange(base + 100, base + 104) =~= pt.subrange(
        base,
        base + 104,
    ));
    assert(spec_u32_to_le_bytes(p.arcane) == pt.subrange(base + 104, base + 108));
    assert(pt.subrange(base, base + 104) + pt.subrange(base + 104, base + 108) =~= pt.subrange(
        base,
        base + 108,
    ));
    assert(spec_u32_to_le_bytes(p.runes) == pt.subrange(base + 108, base + 112));
    assert(pt.subrange(base, base + 108) + pt.subrange(base + 108, base + 112) =~= pt.subrange(
        base,
        base + 112,
    ));
    assert(spec_u32_to_le_bytes(p.runes_memory) == pt.subrange(base + 112, base + 116));
    assert(pt.subrange(base, base + 112) + pt.subrange(base + 112, base + 116) =~= pt.subrange(
        base,
        base + 116,
    ));
    assert(ser_player(p) =~= pt.subrange(base, base + 116));
}

impl UserDataX {
    /// Shape of the decoded state, independent of the section bookkeeping:
    /// fixed fields have their fixed lengths, the recorded region count
    /// matches the id list, and the variable parts fill the record's
    /// capacity exactly.
    pub open spec fn core_wf(self) -> bool {
        &&& self.player_game_data.wf()
        &&& self.event_flags@.len() == FLAG_BLOCK_LEN
        &&& self.unlocked_regions.count as int == self.unlocked_regions.ids@.len()
        &&& 4 * self.equipped_gestures@.len() + 4 * self.unlocked_regions.ids@.len()
            + self.rest@.len() == CHAR_VAR_CAP
    }

    /// `core_wf` plus the section bookkeeping of the given variant.
    pub open spec fn wf(self, variant: crate::layout::SaveType) -> bool {
        &&& self.core_wf()
        &&& self.raw@.len() == variant.spec_section_len(CHAR_PT_LEN as int)
        &&& self.iv@.len() == crate::layout::IV_LEN
    }

    /// The current plaintext of this record.
    pub open spec fn plaintext(self) -> Seq<u8> {
        ser_player(self.player_game_data) + self.event_flags@ + spec_u32_to_le_bytes(
            self.equipped_gestures@.len() as u32,
        ) + flat_u32s(self.equipped_gestures@) + spec_u32_to_le_bytes(self.unlocked_regions.count)
            + flat_u32s(self.unlocked_regions.ids@) + self.rest@
    }

    pub proof fn lemma_plaintext_len(self)
        requires
            self.core_wf(),
        ensures
            self.plaintext().len() == CHAR_PT_LEN,
    {
        lemma_ser_player_len(self.player_game_data);
        vstd::bytes::lemma_auto_spec_u32_to_from_le_bytes();
        lemma_flat_u32s_len(self.equipped_gestures@);
        lemma_flat_u32s_len(self.unlocked_regions.ids@);
    }

    /// Serialize the decoded state back into plaintext bytes.
    pub fn serialize_pt(&self) -> (r: Vec<u8>)
        requires
            self.core_wf(),
        ensures
            r@ == self.plaintext(),
            r@.len() == CHAR_PT_LEN,
    {
        let mut out_v: Vec<u8> = Vec::new();
        let out = &mut out_v;
        let p = &self.player_game_data;
        push_bytes(out, &p.character_name);
        out.push(p.gender);
        out.push(p.archetype);
        proof {
            assert(p.character_name@.push(p.gender).push(p.archetype) =~= p.character_name@
                + seq![p.gender, p.archetype]);
        }
        push_bytes(out, &p.pad);
    push_u32(out, p.hp);
    push_u32(out, p.max_hp);
    push_u32(out, p.base_max_hp);
    push_u32(out, p.fp);
    push_u32(out, p.max_fp);
    push_u32(out, p.base_max_fp);
    push_u32(out, p.sp);
    push_u32(out, p.max_sp);
    push_u32(out, p.base_max_sp);
    push_u32(out, p.level);
    push_u32(out, p.vigor);
    push_u32(out, p.mind);
    push_u32(out, p.endurance);
    push_u32(out, p.strength);
    push_u32(out, p.dexterity);
    push_u32(out, p.intelligence);
    push_u32(out, p.faith);
    push_u32(out, p.arcane);
    push_u32(out, p.runes);
    push_u32(out, p.runes_memory);
    push_bytes(out, &self.event_flags);
        proof {
            lemma_flat_u32s_len(self.equipped_gestures@);
        }
        push_u32(out, self.equipped_gestures.len() as u32);
        push_u32s(out, &self.equipped_gestures);
        push_u32(out, self.unlocked_regions.count);
        push_u32s(out, &self.unlocked_regions.ids);
        push_bytes(out, &self.rest);
        proof {
            assert(out_v@ =~= self.plaintext());
            self.lemma_plaintext_len();
        }
        out_v
    }
}

/// Whether the two recorded list counts of a character plaintext are
/// consistent with the record's capacity.
pub open spec fn char_counts_ok(pt: Seq<u8>) -> bool {
    let g = u32_at(pt, 628);
    let r = u32_at(pt, 632 + 4 * g);
    &&& 4 * g <= CHAR_VAR_CAP
    &&& 4 * g + 4 * r <= CHAR_VAR_CAP
}

/// Decode a character plaintext.  The caller supplies the section
/// bookkeeping (`raw`, `iv`, `is_valid`); the result is never dirty.
/// Inconsistent list counts are a structural error: `None`.
pub fn parse_char_pt(pt: &Vec<u8>, raw: Vec<u8>, iv: Vec<u8>, is_valid: bool) -> (r: Option<
    UserDataX,
>)
    requires
        pt@.len() == CHAR_PT_LEN,
    ensures
        r is Some <==> char_counts_ok(pt@),
        r is Some ==> {
            let u = r->0;
            &&& u.raw == raw
            &&& u.iv == iv
            &&& u.is_valid == is_valid
            &&& !u.dirty
            &&& u.core_wf()
            &&& player_matches(u.player_game_data, pt@, 0)
            &&& u.event_flags@ == pt@.subrange(116, CHAR_FIXED_LEN as int)
            &&& u.equipped_gestures@.len() == u32_at(pt@, 628)
            &&& u.unlocked_regions.count == u32_at(pt@, 632 + 4 * u32_at(pt@, 628))
            &&& u.plaintext() == pt@
        },
{
    let character_name = take_bytes(pt, 0, NAME_LEN);
    let gender = pt[32];
    let archetype = pt[33];
    let pad = take_bytes(pt, 34, 2);
    let hp = read_u32(pt, 36);
    let max_hp = read_u32(pt, 40);
    let base_max_hp = read_u32(pt, 44);
    let fp = read_u32(pt, 48);
    let max_fp = read_u32(pt, 52);
    let base_max_fp = read_u32(pt, 56);
    let sp = read_u32(pt, 60);
    let max_sp = read_u32(pt, 64);
    let base_max_sp = read_u32(pt, 68);
    let level = read_u32(pt, 72);
    let vigor = read_u32(pt, 76);
    let mind = read_u32(pt, 80);
    let endurance = read_u32(pt, 84);
    let strength = read_u32(pt, 88);
    let dexterity = read_u32(pt, 92);
    let intelligence = read_u32(pt, 96);
    let faith = read_u32(pt, 100);
    let arcane = read_u32(pt, 104);
    let runes = read_u32(pt, 108);
    let runes_memory = read_u32(pt, 112);
    let event_flags = take_bytes(pt, 116, FLAG_BLOCK_LEN);
    let g = read_u32(pt, 628);
    if g > (CHAR_VAR_CAP as u32) / 4 {
        return None;
    }
    let g_len = g as usize;
    let equipped_gestures = read_u32s(pt, 632, g_len);
    let rc_off = 632 + 4 * g_len;
    let count = read_u32(pt, rc_off);
    if count > (CHAR_VAR_CAP as u32) / 4 - g {
        return None;
    }
    let r_len = count as usize;
    let ids = read_u32s(pt, rc_off + 4, r_len);
    let rest_off = rc_off + 4 + 4 * r_len;
    let rest = take_bytes(pt, rest_off, CHAR_PT_LEN - rest_off);
    let player_game_data = PlayerGameData {
        character_name,
        gender,
        archetype,
        pad,
        hp,
        max_hp,
        base_max_hp,
        fp,
        max_fp,
        base_max_fp,
        sp,
        max_sp,
        base_max_sp,
        level,
        vigor,
        mind,
        endurance,
        strength,
        dexterity,
        intelligence,
        faith,
        arcane,
        runes,
        runes_memory,
    };
    let u = UserDataX {
        raw,
        iv,
        is_valid,
        dirty: false,
        player_game_data,
        event_flags,
        equipped_gestures,
        unlocked_regions: UnlockedRegions { count, ids },
        rest,
    };
    proof {
        lemma_char_roundtrip(u, pt@);
    }
    Some(u)
}

/// A decoded record whose fields all match their windows of `pt`
/// serializes back to exactly `pt`.
proof fn lemma_char_roundtrip(u: UserDataX, pt: Seq<u8>)
    requires
        pt.len() == CHAR_PT_LEN,
        u.core_wf(),
        player_matches(u.player_game_data, pt, 0),
        u.event_flags@ == pt.subrange(116, CHAR_FIXED_LEN as int),
        u.equipped_gestures@.len() == u32_at(pt, 628),
        flat_u32s(u.equipped_gestures@) == pt.subrange(632, 632 + 4 * u32_at(pt, 628)),
        u.unlocked_regions.count == u32_at(pt, 632 + 4 * u32_at(pt, 628)),
        flat_u32s(u.unlocked_regions.ids@) == pt.subrange(
            636 + 4 * u32_at(pt, 628),
            636 + 4 * u32_at(pt, 628) + 4 * (u.unlocked_regions.count as int),
        ),
        u.rest@ == pt.subrange(
            636 + 4 * u32_at(pt, 628) + 4 * (u.unlocked_regions.count as int),
            CHAR_PT_LEN as int,
        ),
    ensures
        u.plaintext() == pt,
{
    vstd::bytes::lemma_auto_spec_u32_to_from_le_bytes();
    lemma_ser_player_window(u.player_game_data, pt, 0);
    let g = u32_at(pt, 628) as int;
    let r = u.unlocked_regions.count as int;
    let s1 = ser_player(u.player_game_data);
    let s2 = s1 + u.event_flags@;
    assert(s2 =~= pt.subrange(0, CHAR_FIXED_LEN as int));
    assert(spec_u32_to_le_bytes(u.equipped_gestures@.len() as u32) == pt.subrange(628, 632));
    let s3 = s2 + spec_u32_to_le_bytes(u.equipped_gestures@.len() as u32);
    assert(s3 =~= pt.subrange(0, 632));
    let s4 = s3 + flat_u32s(u.equipped_gestures@);
    assert(s4 =~= pt.subrange(0, 632 + 4 * g));
    assert(spec_u32_to_le_bytes(u.unlocked_regions.count) == pt.subrange(
        632 + 4 * g,
        636 + 4 * g,
    ));
    let s5 = s4 + spec_u32_to_le_bytes(u.unlocked_regions.count);
    assert(s5 =~= pt.subrange(0, 636 + 4 * g));
    let s6 = s5 + flat_u32s(u.unlocked_regions.ids@);
    assert(s6 =~= pt.subrange(0, 636 + 4 * g + 4 * r));
    let s7 = s6 + u.rest@;
    assert(s7 =~= pt);
    assert(u.plaintext() == s7);
}


/// First position of `x` in `v`.
pub fn find_u32(v: &Vec<u32>, x: u32) -> (r: Option<usize>)
    ensures
        match r {
            Some(i) => v@.index_of_first(x) == Some(i as int),
            None => v@.index_of_first(x) is None,
        },
{
    proof {
        v@.index_of_first_ensures(x);
    }
    let mut i: usize = 0;
    while i < v.len()
        invariant
            i <= v@.len(),
            forall|k: int| 0 <= k < i ==> v@[k] != x,
            match v@.index_of_first(x) {
                Some(idx) => {
                    &&& 0 <= idx < v@.len()
                    &&& v@[idx] == x
                    &&& forall|j: int| 0 <= j < idx ==> v@[j] != x
                },
                None => !v@.contains(x),
            },
        decreases v@.len() - i,
    {
        if v[i] == x {
            return Some(i);
        }
        i = i + 1;
    }
    proof {
        if v@.index_of_first(x) is Some {
            let idx = v@.index_of_first(x)->0;
            assert(v@[idx] != x);
        }
    }
    None
}

impl UserDataX {
    /// All parts of the record other than the id lists, `rest`, and the
    /// dirty mark are as in `other`.
    pub open spec fn same_but_lists(self, other: UserDataX) -> bool {
        &&& self.raw == other.raw
        &&& self.iv == other.iv
        &&& self.is_valid == other.is_valid
        &&& self.player_game_data == other.player_game_data
        &&& self.event_flags == other.event_flags
    }

    /// Unlock a region: append its id and shrink `rest` by the four bytes
    /// the id now occupies.  An id that is already present is left alone.
    /// Returns `false`, changing nothing, when the record has no room.
    pub fn add_region(&mut self, region_id: u32) -> (ok: bool)
        requires
            old(self).core_wf(),
        ensures
            final(self).core_wf(),
            old(self).unlocked_regions.ids@.contains(region_id) ==> ok && *final(self) == *old(
                self,
            ),
            !old(self).unlocked_regions.ids@.contains(region_id) && old(self).rest@.len() >= 4
                ==> {
                &&& ok
                &&& final(self).unlocked_regions.ids@ == old(
                    self,
                ).unlocked_regions.ids@.push(region_id)
                &&& final(self).unlocked_regions.count == old(self).unlocked_regions.count + 1
                &&& final(self).rest@ == old(self).rest@.subrange(
                    0,
                    old(self).rest@.len() - 4,
                )
                &&& final(self).equipped_gestures == old(self).equipped_gestures
                &&& final(self).dirty
                &&& final(self).same_but_lists(*old(self))
            },
            !old(self).unlocked_regions.ids@.contains(region_id) && old(self).rest@.len() < 4
                ==> !ok && *final(self) == *old(self),
    {
        proof {
            old(self).unlocked_regions.ids@.index_of_first_ensures(region_id);
        }
        match find_u32(&self.unlocked_regions.ids, region_id) {
            Some(_) => true,
            None => {
                if self.rest.len() < 4 {
                    return false;
                }
                self.unlocked_regions.ids.push(region_id);
                self.unlocked_regions.count = self.unlocked_regions.count + 1;
                let n = self.rest.len();
                self.rest.truncate(n - 4);
                self.dirty = true;
                true
            },
        }
    }

    /// Lock a region: remove the first occurrence of its id and grow `rest`
    /// by four zero bytes.  An id that is not present is a no-op.
    pub fn remove_region(&mut self, region_id: u32)
        requires
            old(self).core_wf(),
        ensures
            final(self).core_wf(),
            !old(self).unlocked_regions.ids@.contains(region_id) ==> *final(self) == *old(self),
            old(self).unlocked_regions.ids@.contains(region_id) ==> {
                &&& final(self).unlocked_regions.ids@ == old(
                    self,
                ).unlocked_regions.ids@.remove(
                    old(self).unlocked_regions.ids@.index_of_first(region_id)->0,
                )
                &&& final(self).unlocked_regions.count == old(self).unlocked_regions.count - 1
                &&& final(self).rest@ == old(self).rest@ + seq![0u8, 0u8, 0u8, 0u8]
                &&& final(self).equipped_gestures == old(self).equipped_gestures
                &&& final(self).dirty
                &&& final(self).same_but_lists(*old(self))
            },
    {
        proof {
            old(self).unlocked_regions.ids@.index_of_first_ensures(region_id);
        }
        match find_u32(&self.unlocked_regions.ids, region_id) {
            Some(i) => {
                self.unlocked_regions.ids.remove(i);
                self.unlocked_regions.count = self.unlocked_regions.count - 1;
                self.rest.push(0);
                self.rest.push(0);
                self.rest.push(0);
                self.rest.push(0);
                self.dirty = true;
                proof {
                    assert(final(self).rest@ =~= old(self).rest@ + seq![0u8, 0u8, 0u8, 0u8]);
                }
            },
            None => {},
        }
    }

    /// Replace the equipped-gesture list, growing or shrinking `rest` by
    /// the size difference.  Returns `false`, changing nothing, when the
    /// new list does not fit in the record's capacity.
    pub fn set_equipped_gestures(&mut self, new_gestures: Vec<u32>) -> (ok: bool)
        requires
            old(self).core_wf(),
        ensures
            final(self).core_wf(),
            4 * new_gestures@.len() <= 4 * old(self).equipped_gestures@.len() + old(
                self,
            ).rest@.len() ==> {
                &&& ok
                &&& final(self).equipped_gestures@ == new_gestures@
                &&& final(self).unlocked_regions == old(self).unlocked_regions
                &&& final(self).rest@.len() == old(self).rest@.len() + 4 * old(
                    self,
                ).equipped_gestures@.len() - 4 * new_gestures@.len()
                &&& final(self).dirty
                &&& final(self).same_but_lists(*old(self))
            },
            4 * new_gestures@.len() > 4 * old(self).equipped_gestures@.len() + old(
                self,
            ).rest@.len() ==> !ok && *final(self) == *old(self),
    {
        let old_len = self.equipped_gestures.len();
        let new_len = new_gestures.len();
        if new_len > old_len && new_len - old_len > self.rest.len() / 4 {
            return false;
        }
        if new_len >= old_len {
            let n = self.rest.len();
            self.rest.truncate(n - 4 * (new_len - old_len));
        } else {
            let mut k: usize = 0;
            let need = 4 * (old_len - new_len);
            while k < need
                invariant
                    k <= need,
                    self.rest@ == old(self).rest@ + Seq::new(k as nat, |j: int| 0u8),
                    self.equipped_gestures == old(self).equipped_gestures,
                    self.unlocked_regions == old(self).unlocked_regions,
                    self.same_but_lists(*old(self)),
                    self.dirty == old(self).dirty,
                decreases need - k,
            {
                self.rest.push(0);
                proof {
                    assert(old(self).rest@ + Seq::new((k + 1) as nat, |j: int| 0u8)
                        =~= (old(self).rest@ + Seq::new(k as nat, |j: int| 0u8)).push(0u8));
                }
                k = k + 1;
            }
        }
        self.equipped_gestures = new_gestures;
        self.dirty = true;
        true
    }
}

/// Unlocking a region and then locking it again restores the id list and,
/// when the four bytes that the id displaced were zero padding, restores
/// `rest` byte-for-byte.  `mid` and `after` are the states that
/// `add_region` and `remove_region` leave behind.
pub proof fn lemma_add_then_remove_region_restores(
    before: UserDataX,
    mid: UserDataX,
    after: UserDataX,
    region_id: u32,
)
    requires
        before.core_wf(),
        !before.unlocked_regions.ids@.contains(region_id),
        before.rest@.len() >= 4,
        forall|k: int|
            before.rest@.len() - 4 <= k < before.rest@.len() ==> before.rest@[k] == 0u8,
        mid.unlocked_regions.ids@ == before.unlocked_regions.ids@.push(region_id),
        mid.rest@ == before.rest@.subrange(0, before.rest@.len() - 4),
        after.unlocked_regions.ids@ == mid.unlocked_regions.ids@.remove(
            mid.unlocked_regions.ids@.index_of_first(region_id)->0,
        ),
        after.rest@ == mid.rest@ + seq![0u8, 0u8, 0u8, 0u8],
    ensures
        after.unlocked_regions.ids@ == before.unlocked_regions.ids@,
        after.rest@ == before.rest@,
{
    mid.unlocked_regions.ids@.index_of_first_ensures(region_id);
    let ids = before.unlocked_regions.ids@;
    let i = mid.unlocked_regions.ids@.index_of_first(region_id)->0;
    assert(ids.push(region_id)[ids.len() as int] == region_id);
    assert(i == ids.len()) by {
        if i < ids.len() {
            assert(ids.push(region_id)[i] == ids[i]);
            assert(ids.contains(ids[i]));
        }
    }
    assert(after.unlocked_regions.ids@ =~= ids);
    assert(after.rest@ =~= before.rest@);
}

} // verus!
