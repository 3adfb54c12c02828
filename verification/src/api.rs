//! The facade: load a save, edit it through typed accessors, write it
//! back.  Accessors that touch a field mirrored in the profile summary
//! update the character record and the summary entry in lockstep; the
//! record is the source of truth and the summary is a projection of it.

use crate::character::{PlayerGameData, UserDataX};
use crate::flags::FlagIndex;
use crate::layout::{CHAR_SLOTS, NAME_LEN, SaveType};
use crate::profile::UserData10;
use crate::params::{
    dir_entry_name, dir_find, dir_ok, dir_slice, dir_table_bytes, dir_window_ok, decode_table,
    params_entry_name, schema_table_name, spec_encode_table, spec_params_entry_name,
    spec_schema_name, Param, ParamKind, ParamParseError,
};
use crate::regulation::{
    archive_body, archive_comp, archive_counts_ok, archive_entry_name, archive_entry_window_ok,
    entry_at, RegulationParseError,
};
use crate::compress::zlib_inflate_of;
use crate::wire::u32_at;
use crate::layout::ENTRY_NAME_LEN;
use crate::save::{Save, SaveParseError, save_bytes};
use vstd::utf8::{decode_utf8, valid_utf8};
use vstd::prelude::*;
use vstd::string::StringSliceAdditionalSpecFns;

verus! {

/// Errors of the facade.
#[derive(Debug, PartialEq, Eq, Structural, Clone, Copy)]
pub enum SaveApiError {
    /// The container failed to load; fatal, no partial state.
    SaveParserError(SaveParseError),
    /// The regulation archive failed to unpack.
    RegulationParseError(crate::regulation::RegulationParseError),
    /// A param table failed to resolve or decode.
    ParamError(crate::params::ParamParseError),
    /// The flag index has no entry for this id; expected and recoverable.
    EventIdNotFound(u32),
    /// The character slot is outside `[0, CHAR_SLOTS)`.
    CharacterIndexOutOfBounds(usize),
    /// A variable-length edit does not fit the record's fixed capacity.
    RecordCapacityExceeded(usize),
    /// A character name that is not ASCII or does not fit its field.
    InvalidCharacterName,
}

/// The facade over one loaded container.
pub struct SaveApi {
    pub raw: Save,
    pub flag_index: FlagIndex,
}

impl SaveApi {
    /// Everything callers may assume about a live facade.
    pub open spec fn wf(self) -> bool {
        &&& self.raw.wf()
        &&& self.flag_index.wf()
    }

    /// Wrap an already-parsed container, with the built-in flag index.
    pub fn new(save: Save) -> (r: SaveApi)
        requires
            save.wf(),
        ensures
            r.wf(),
            r.raw == save,
    {
        SaveApi { raw: save, flag_index: crate::flags::default_index() }
    }

    /// Parse a container from bytes; see `Save::from_slice` for the exact
    /// parse contract carried over here.
    pub fn from_slice(bytes: &[u8]) -> (r: Result<SaveApi, SaveApiError>)
        ensures
            match r {
                Ok(api) => {
                    &&& api.wf()
                    &&& api.raw.all_clean()
                    &&& save_bytes(api.raw) == bytes@
                    &&& crate::save::variant_of_len(bytes@.len() as int) == Some(
                        api.raw.spec_variant(),
                    )
                    &&& api.raw.user_data_10.steam_id == crate::wire::u64_at(
                        crate::save::slot_pt(
                            api.raw.spec_variant(),
                            bytes@,
                            crate::save::profile_off(api.raw.spec_variant()),
                            crate::layout::PROFILE_PT_LEN as int,
                        ),
                        0,
                    )
                    &&& forall|i: int|
                        0 <= i < CHAR_SLOTS ==> (#[trigger] api.raw.user_data_x@[i]).plaintext()
                            == crate::save::char_slot_pt(api.raw.spec_variant(), bytes@, i)
                },
                Err(SaveApiError::SaveParserError(e)) => match e {
                    SaveParseError::InvalidLength(n) => n == bytes@.len()
                        && crate::save::variant_of_len(bytes@.len() as int) is None,
                    SaveParseError::MalformedCharacterRecord(i) => {
                        &&& crate::save::variant_of_len(bytes@.len() as int) is Some
                        &&& 0 <= i < CHAR_SLOTS
                        &&& !crate::character::char_counts_ok(
                            crate::save::char_slot_pt(
                                crate::save::variant_of_len(bytes@.len() as int)->0,
                                bytes@,
                                i as int,
                            ),
                        )
                    },
                },
                Err(_) => false,
            },
            r is Ok <==> {
                &&& crate::save::variant_of_len(bytes@.len() as int) is Some
                &&& forall|i: int|
                    0 <= i < CHAR_SLOTS ==> crate::character::char_counts_ok(
                        crate::save::char_slot_pt(
                            crate::save::variant_of_len(bytes@.len() as int)->0,
                            bytes@,
                            i,
                        ),
                    )
            },
    {
        match Save::from_slice(bytes) {
            Ok(save) => Ok(SaveApi::new(save)),
            Err(e) => Err(SaveApiError::SaveParserError(e)),
        }
    }

    /// Serialize the container; sections that were never edited come back
    /// byte-for-byte as loaded.
    pub fn to_vec(&self) -> (r: Result<Vec<u8>, SaveApiError>)
        requires
            self.wf(),
        ensures
            r is Ok,
            r->Ok_0@ == save_bytes(self.raw),
    {
        Ok(self.raw.write_to_vec())
    }

    /// The save variant, decided by the header length alone.
    pub fn platform(&self) -> (r: SaveType)
        ensures
            r == self.raw.spec_variant(),
    {
        self.raw.variant()
    }

    /// The platform account id stored in the profile-summary section.
    pub fn steam_id(&self) -> (r: u64)
        ensures
            r == self.raw.user_data_10.steam_id,
    {
        self.raw.user_data_10.steam_id
    }

    /// Overwrite the platform account id.
    pub fn set_steam_id(&mut self, steam_id: u64) -> (r: Result<(), SaveApiError>)
        requires
            old(self).wf(),
        ensures
            final(self).wf(),
            r is Ok,
            final(self).raw == (Save {
                user_data_10: UserData10 {
                    steam_id,
                    dirty: true,
                    ..old(self).raw.user_data_10
                },
                ..old(self).raw
            }),
            final(self).flag_index == old(self).flag_index,
    {
        self.raw.user_data_10.steam_id = steam_id;
        self.raw.user_data_10.dirty = true;
        Ok(())
    }
}

impl SaveApi {
    /// The `hp` field of the character at `index`.
    pub fn hp(&self, index: usize) -> (r: u32)
        requires
            self.wf(),
            index < CHAR_SLOTS,
        ensures
            r == self.raw.user_data_x@[index as int].player_game_data.hp,
    {
        self.raw.user_data_x[index].player_game_data.hp
    }

    /// The `max_hp` field of the character at `index`.
    pub fn max_hp(&self, index: usize) -> (r: u32)
        requires
            self.wf(),
            index < CHAR_SLOTS,
        ensures
            r == self.raw.user_data_x@[index as int].player_game_data.max_hp,
    {
        self.raw.user_data_x[index].player_game_data.max_hp
    }

    /// The `base_max_hp` field of the character at `index`.
    pub fn base_max_hp(&self, index: usize) -> (r: u32)
        requires
            self.wf(),
            index < CHAR_SLOTS,
        ensures
            r == self.raw.user_data_x@[index as int].player_game_data.base_max_hp,
    {
        self.raw.user_data_x[index].player_game_data.base_max_hp
    }

    /// The `max_fp` field of the character at `index`.
    pub fn max_fp(&self, index: usize) -> (r: u32)
        requires
            self.wf(),
            index < CHAR_SLOTS,
        ensures
            r == self.raw.user_data_x@[index as int].player_game_data.max_fp,
    {
        self.raw.user_data_x[index].player_game_data.max_fp
    }

    /// The `base_max_fp` field of the character at `index`.
    pub fn base_max_fp(&self, index: usize) -> (r: u32)
        requires
            self.wf(),
            index < CHAR_SLOTS,
        ensures
            r == self.raw.user_data_x@[index as int].player_game_data.base_max_fp,
    {
        self.raw.user_data_x[index].player_game_data.base_max_fp
    }

    /// The `max_sp` field of the character at `index`.
    pub fn max_sp(&self, index: usize) -> (r: u32)
        requires
            self.wf(),
            index < CHAR_SLOTS,
        ensures
            r == self.raw.user_data_x@[index as int].player_game_data.max_sp,
    {
        self.raw.user_data_x[index].player_game_data.max_sp
    }

    /// The `base_max_sp` field of the character at `index`.
    pub fn base_max_sp(&self, index: usize) -> (r: u32)
        requires
            self.wf(),
            index < CHAR_SLOTS,
        ensures
            r == self.raw.user_data_x@[index as int].player_game_data.base_max_sp,
    {
        self.raw.user_data_x[index].player_game_data.base_max_sp
    }

    /// The `level` field of the character at `index`.
    pub fn level(&self, index: usize) -> (r: u32)
        requires
            self.wf(),
            index < CHAR_SLOTS,
        ensures
            r == self.raw.user_data_x@[index as int].player_game_data.level,
    {
        self.raw.user_data_x[index].player_game_data.level
    }

    /// The `vigor` field of the character at `index`.
    pub fn vigor(&self, index: usize) -> (r: u32)
        requires
            self.wf(),
            index < CHAR_SLOTS,
        ensures
            r == self.raw.user_data_x@[index as int].player_game_data.vigor,
    {
        self.raw.user_data_x[index].player_game_data.vigor
    }

    /// The `mind` field of the character at `index`.
    pub fn mind(&self, index: usize) -> (r: u32)
        requires
            self.wf(),
            index < CHAR_SLOTS,
        ensures
            r == self.raw.user_data_x@[index as int].player_game_data.mind,
    {
        self.raw.user_data_x[index].player_game_data.mind
    }

    /// The `endurance` field of the character at `index`.
    pub fn endurance(&self, index: usize) -> (r: u32)
        requires
            self.wf(),
            index < CHAR_SLOTS,
        ensures
            r == self.raw.user_data_x@[index as int].player_game_data.endurance,
    {
        self.raw.user_data_x[index].player_game_data.endurance
    }

    /// The `strength` field of the character at `index`.
    pub fn strength(&self, index: usize) -> (r: u32)
        requires
            self.wf(),
            index < CHAR_SLOTS,
        ensures
            r == self.raw.user_data_x@[index as int].player_game_data.strength,
    {
        self.raw.user_data_x[index].player_game_data.strength
    }

    /// The `dexterity` field of the character at `index`.
    pub fn dexterity(&self, index: usize) -> (r: u32)
        requires
            self.wf(),
            index < CHAR_SLOTS,
        ensures
            r == self.raw.user_data_x@[index as int].player_game_data.dexterity,
    {
        self.raw.user_data_x[index].player_game_data.dexterity
    }

    /// The `intelligence` field of the character at `index`.
    pub fn intelligence(&self, index: usize) -> (r: u32)
        requires
            self.wf(),
            index < CHAR_SLOTS,
        ensures
            r == self.raw.user_data_x@[index as int].player_game_data.intelligence,
    {
        self.raw.user_data_x[index].player_game_data.intelligence
    }

    /// The `faith` field of the character at `index`.
    pub fn faith(&self, index: usize) -> (r: u32)
        requires
            self.wf(),
            index < CHAR_SLOTS,
        ensures
            r == self.raw.user_data_x@[index as int].player_game_data.faith,
    {
        self.raw.user_data_x[index].player_game_data.faith
    }

    /// The `arcane` field of the character at `index`.
    pub fn arcane(&self, index: usize) -> (r: u32)
        requires
            self.wf(),
            index < CHAR_SLOTS,
        ensures
            r == self.raw.user_data_x@[index as int].player_game_data.arcane,
    {
        self.raw.user_data_x[index].player_game_data.arcane
    }

    /// The `runes` field of the character at `index`.
    pub fn runes(&self, index: usize) -> (r: u32)
        requires
            self.wf(),
            index < CHAR_SLOTS,
        ensures
            r == self.raw.user_data_x@[index as int].player_game_data.runes,
    {
        self.raw.user_data_x[index].player_game_data.runes
    }

    /// The `runes_memory` field of the character at `index`.
    pub fn runes_memory(&self, index: usize) -> (r: u32)
        requires
            self.wf(),
            index < CHAR_SLOTS,
        ensures
            r == self.raw.user_data_x@[index as int].player_game_data.runes_memory,
    {
        self.raw.user_data_x[index].player_game_data.runes_memory
    }

    /// The `archetype` field of the character at `index`.
    pub fn archetype(&self, index: usize) -> (r: u8)
        requires
            self.wf(),
            index < CHAR_SLOTS,
        ensures
            r == self.raw.user_data_x@[index as int].player_game_data.archetype,
    {
        self.raw.user_data_x[index].player_game_data.archetype
    }

    /// The `gender` field of the character at `index`.
    pub fn gender(&self, index: usize) -> (r: u8)
        requires
            self.wf(),
            index < CHAR_SLOTS,
        ensures
            r == self.raw.user_data_x@[index as int].player_game_data.gender,
    {
        self.raw.user_data_x[index].player_game_data.gender
    }

    /// Overwrite the `hp` field of the character at `index`.
    pub fn set_hp(&mut self, index: usize, hp: u32) -> (r: Result<(), SaveApiError>)
        requires
            old(self).wf(),
            index < CHAR_SLOTS,
        ensures
            final(self).wf(),
            r is Ok,
            final(self).raw.header == old(self).raw.header,
            final(self).raw.user_data_10 == old(self).raw.user_data_10,
            final(self).raw.user_data_11 == old(self).raw.user_data_11,
            final(self).flag_index == old(self).flag_index,
            final(self).raw.user_data_x@ == old(self).raw.user_data_x@.update(
                index as int,
                (UserDataX {
                    dirty: true,
                    player_game_data: PlayerGameData {
                        hp,
                        ..old(self).raw.user_data_x@[index as int].player_game_data
                    },
                    ..old(self).raw.user_data_x@[index as int]
                }),
            ),
    {
        let ud = &mut self.raw.user_data_x[index];
        ud.player_game_data.hp = hp;
        ud.dirty = true;
        proof {
            lemma_slot_update_wf(*old(self), *self, index as int);
        }
        Ok(())
    }

    /// Overwrite the `max_hp` field of the character at `index`.
    pub fn set_max_hp(&mut self, index: usize, max_hp: u32) -> (r: Result<(), SaveApiError>)
        requires
            old(self).wf(),
            index < CHAR_SLOTS,
        ensures
            final(self).wf(),
            r is Ok,
            final(self).raw.header == old(self).raw.header,
            final(self).raw.user_data_10 == old(self).raw.user_data_10,
            final(self).raw.user_data_11 == old(self).raw.user_data_11,
            final(self).flag_index == old(self).flag_index,
            final(self).raw.user_data_x@ == old(self).raw.user_data_x@.update(
                index as int,
                (UserDataX {
                    dirty: true,
                    player_game_data: PlayerGameData {
                        max_hp,
                        ..old(self).raw.user_data_x@[index as int].player_game_data
                    },
                    ..old(self).raw.user_data_x@[index as int]
                }),
            ),
    {
        let ud = &mut self.raw.user_data_x[index];
        ud.player_game_data.max_hp = max_hp;
        ud.dirty = true;
        proof {
            lemma_slot_update_wf(*old(self), *self, index as int);
        }
        Ok(())
    }

    /// Overwrite the `base_max_hp` field of the character at `index`.
    pub fn set_base_max_hp(&mut self, index: usize, base_max_hp: u32) -> (r: Result<(), SaveApiError>)
        requires
            old(self).wf(),
            index < CHAR_SLOTS,
        ensures
            final(self).wf(),
            r is Ok,
            final(self).raw.header == old(self).raw.header,
            final(self).raw.user_data_10 == old(self).raw.user_data_10,
            final(self).raw.user_data_11 == old(self).raw.user_data_11,
            final(self).flag_index == old(self).flag_index,
            final(self).raw.user_data_x@ == old(self).raw.user_data_x@.update(
                index as int,
                (UserDataX {
                    dirty: true,
                    player_game_data: PlayerGameData {
                        base_max_hp,
                        ..old(self).raw.user_data_x@[index as int].player_game_data
                    },
                    ..old(self).raw.user_data_x@[index as int]
                }),
            ),
    {
        let ud = &mut self.raw.user_data_x[index];
        ud.player_game_data.base_max_hp = base_max_hp;
        ud.dirty = true;
        proof {
            lemma_slot_update_wf(*old(self), *self, index as int);
        }
        Ok(())
    }

    /// Overwrite the `fp` field of the character at `index`.
    pub fn set_fp(&mut self, index: usize, fp: u32) -> (r: Result<(), SaveApiError>)
        requires
            old(self).wf(),
            index < CHAR_SLOTS,
        ensures
            final(self).wf(),
            r is Ok,
            final(self).raw.header == old(self).raw.header,
            final(self).raw.user_data_10 == old(self).raw.user_data_10,
            final(self).raw.user_data_11 == old(self).raw.user_data_11,
            final(self).flag_index == old(self).flag_index,
            final(self).raw.user_data_x@ == old(self).raw.user_data_x@.update(
                index as int,
                (UserDataX {
                    dirty: true,
                    player_game_data: PlayerGameData {
                        fp,
                        ..old(self).raw.user_data_x@[index as int].player_game_data
                    },
                    ..old(self).raw.user_data_x@[index as int]
                }),
            ),
    {
        let ud = &mut self.raw.user_data_x[index];
        ud.player_game_data.fp = fp;
        ud.dirty = true;
        proof {
            lemma_slot_update_wf(*old(self), *self, index as int);
        }
        Ok(())
    }

    /// Overwrite the `max_fp` field of the character at `index`.
    pub fn set_max_fp(&mut self, index: usize, max_fp: u32) -> (r: Result<(), SaveApiError>)
        requires
            old(self).wf(),
            index < CHAR_SLOTS,
        ensures
            final(self).wf(),
            r is Ok,
            final(self).raw.header == old(self).raw.header,
            final(self).raw.user_data_10 == old(self).raw.user_data_10,
            final(self).raw.user_data_11 == old(self).raw.user_data_11,
            final(self).flag_index == old(self).flag_index,
            final(self).raw.user_data_x@ == old(self).raw.user_data_x@.update(
                index as int,
                (UserDataX {
                    dirty: true,
                    player_game_data: PlayerGameData {
                        max_fp,
                        ..old(self).raw.user_data_x@[index as int].player_game_data
                    },
                    ..old(self).raw.user_data_x@[index as int]
                }),
            ),
    {
        let ud = &mut self.raw.user_data_x[index];
        ud.player_game_data.max_fp = max_fp;
        ud.dirty = true;
        proof {
            lemma_slot_update_wf(*old(self), *self, index as int);
        }
        Ok(())
    }

    /// Overwrite the `base_max_fp` field of the character at `index`.
    pub fn set_base_max_fp(&mut self, index: usize, base_max_fp: u32) -> (r: Result<(), SaveApiError>)
        requires
            old(self).wf(),
            index < CHAR_SLOTS,
        ensures
            final(self).wf(),
            r is Ok,
            final(self).raw.header == old(self).raw.header,
            final(self).raw.user_data_10 == old(self).raw.user_data_10,
            final(self).raw.user_data_11 == old(self).raw.user_data_11,
            final(self).flag_index == old(self).flag_index,
            final(self).raw.user_data_x@ == old(self).raw.user_data_x@.update(
                index as int,
                (UserDataX {
                    dirty: true,
                    player_game_data: PlayerGameData {
                        base_max_fp,
                        ..old(self).raw.user_data_x@[index as int].player_game_data
                    },
                    ..old(self).raw.user_data_x@[index as int]
                }),
            ),
    {
        let ud = &mut self.raw.user_data_x[index];
        ud.player_game_data.base_max_fp = base_max_fp;
        ud.dirty = true;
        proof {
            lemma_slot_update_wf(*old(self), *self, index as int);
        }
        Ok(())
    }

    /// Overwrite the `sp` field of the character at `index`.
    pub fn set_sp(&mut self, index: usize, sp: u32) -> (r: Result<(), SaveApiError>)
        requires
            old(self).wf(),
            index < CHAR_SLOTS,
        ensures
            final(self).wf(),
            r is Ok,
            final(self).raw.header == old(self).raw.header,
            final(self).raw.user_data_10 == old(self).raw.user_data_10,
            final(self).raw.user_data_11 == old(self).raw.user_data_11,
            final(self).flag_index == old(self).flag_index,
            final(self).raw.user_data_x@ == old(self).raw.user_data_x@.update(
                index as int,
                (UserDataX {
                    dirty: true,
                    player_game_data: PlayerGameData {
                        sp,
                        ..old(self).raw.user_data_x@[index as int].player_game_data
                    },
                    ..old(self).raw.user_data_x@[index as int]
                }),
            ),
    {
        let ud = &mut self.raw.user_data_x[index];
        ud.player_game_data.sp = sp;
        ud.dirty = true;
        proof {
            lemma_slot_update_wf(*old(self), *self, index as int);
        }
        Ok(())
    }

    /// Overwrite the `max_sp` field of the character at `index`.
    pub fn set_max_sp(&mut self, index: usize, max_sp: u32) -> (r: Result<(), SaveApiError>)
        requires
            old(self).wf(),
            index < CHAR_SLOTS,
        ensures
            final(self).wf(),
            r is Ok,
            final(self).raw.header == old(self).raw.header,
            final(self).raw.user_data_10 == old(self).raw.user_data_10,
            final(self).raw.user_data_11 == old(self).raw.user_data_11,
            final(self).flag_index == old(self).flag_index,
            final(self).raw.user_data_x@ == old(self).raw.user_data_x@.update(
                index as int,
                (UserDataX {
                    dirty: true,
                    player_game_data: PlayerGameData {
                        max_sp,
                        ..old(self).raw.user_data_x@[index as int].player_game_data
                    },
                    ..old(self).raw.user_data_x@[index as int]
                }),
            ),
    {
        let ud = &mut self.raw.user_data_x[index];
        ud.player_game_data.max_sp = max_sp;
        ud.dirty = true;
        proof {
            lemma_slot_update_wf(*old(self), *self, index as int);
        }
        Ok(())
    }

    /// Overwrite the `base_max_sp` field of the character at `index`.
    pub fn set_base_max_sp(&mut self, index: usize, base_max_sp: u32) -> (r: Result<(), SaveApiError>)
        requires
            old(self).wf(),
            index < CHAR_SLOTS,
        ensures
            final(self).wf(),
            r is Ok,
            final(self).raw.header == old(self).raw.header,
            final(self).raw.user_data_10 == old(self).raw.user_data_10,
            final(self).raw.user_data_11 == old(self).raw.user_data_11,
            final(self).flag_index == old(self).flag_index,
            final(self).raw.user_data_x@ == old(self).raw.user_data_x@.update(
                index as int,
                (UserDataX {
                    dirty: true,
                    player_game_data: PlayerGameData {
                        base_max_sp,
                        ..old(self).raw.user_data_x@[index as int].player_game_data
                    },
                    ..old(self).raw.user_data_x@[index as int]
                }),
            ),
    {
        let ud = &mut self.raw.user_data_x[index];
        ud.player_game_data.base_max_sp = base_max_sp;
        ud.dirty = true;
        proof {
            lemma_slot_update_wf(*old(self), *self, index as int);
        }
        Ok(())
    }

    /// Overwrite the `vigor` field of the character at `index`.
    pub fn set_vigor(&mut self, index: usize, vigor: u32) -> (r: Result<(), SaveApiError>)
        requires
            old(self).wf(),
            index < CHAR_SLOTS,
        ensures
            final(self).wf(),
            r is Ok,
            final(self).raw.header == old(self).raw.header,
            final(self).raw.user_data_10 == old(self).raw.user_data_10,
            final(self).raw.user_data_11 == old(self).raw.user_data_11,
            final(self).flag_index == old(self).flag_index,
            final(self).raw.user_data_x@ == old(self).raw.user_data_x@.update(
                index as int,
                (UserDataX {
                    dirty: true,
                    player_game_data: PlayerGameData {
                        vigor,
                        ..old(self).raw.user_data_x@[index as int].player_game_data
                    },
                    ..old(self).raw.user_data_x@[index as int]
                }),
            ),
    {
        let ud = &mut self.raw.user_data_x[index];
        ud.player_game_data.vigor = vigor;
        ud.dirty = true;
        proof {
            lemma_slot_update_wf(*old(self), *self, index as int);
        }
        Ok(())
    }

    /// Overwrite the `mind` field of the character at `index`.
    pub fn set_mind(&mut self, index: usize, mind: u32) -> (r: Result<(), SaveApiError>)
        requires
            old(self).wf(),
            index < CHAR_SLOTS,
        ensures
            final(self).wf(),
            r is Ok,
            final(self).raw.header == old(self).raw.header,
            final(self).raw.user_data_10 == old(self).raw.user_data_10,
            final(self).raw.user_data_11 == old(self).raw.user_data_11,
            final(self).flag_index == old(self).flag_index,
            final(self).raw.user_data_x@ == old(self).raw.user_data_x@.update(
                index as int,
                (UserDataX {
                    dirty: true,
                    player_game_data: PlayerGameData {
                        mind,
                        ..old(self).raw.user_data_x@[index as int].player_game_data
                    },
                    ..old(self).raw.user_data_x@[index as int]
                }),
            ),
    {
        let ud = &mut self.raw.user_data_x[index];
        ud.player_game_data.mind = mind;
        ud.dirty = true;
        proof {
            lemma_slot_update_wf(*old(self), *self, index as int);
        }
        Ok(())
    }

    /// Overwrite the `endurance` field of the character at `index`.
    pub fn set_endurance(&mut self, index: usize, endurance: u32) -> (r: Result<(), SaveApiError>)
        requires
            old(self).wf(),
            index < CHAR_SLOTS,
        ensures
            final(self).wf(),
            r is Ok,
            final(self).raw.header == old(self).raw.header,
            final(self).raw.user_data_10 == old(self).raw.user_data_10,
            final(self).raw.user_data_11 == old(self).raw.user_data_11,
            final(self).flag_index == old(self).flag_index,
            final(self).raw.user_data_x@ == old(self).raw.user_data_x@.update(
                index as int,
                (UserDataX {
                    dirty: true,
                    player_game_data: PlayerGameData {
                        endurance,
                        ..old(self).raw.user_data_x@[index as int].player_game_data
                    },
                    ..old(self).raw.user_data_x@[index as int]
                }),
            ),
    {
        let ud = &mut self.raw.user_data_x[index];
        ud.player_game_data.endurance = endurance;
        ud.dirty = true;
        proof {
            lemma_slot_update_wf(*old(self), *self, index as int);
        }
        Ok(())
    }

    /// Overwrite the `strength` field of the character at `index`.
    pub fn set_strength(&mut self, index: usize, strength: u32) -> (r: Result<(), SaveApiError>)
        requires
            old(self).wf(),
            index < CHAR_SLOTS,
        ensures
            final(self).wf(),
            r is Ok,
            final(self).raw.header == old(self).raw.header,
            final(self).raw.user_data_10 == old(self).raw.user_data_10,
            final(self).raw.user_data_11 == old(self).raw.user_data_11,
            final(self).flag_index == old(self).flag_index,
            final(self).raw.user_data_x@ == old(self).raw.user_data_x@.update(
                index as int,
                (UserDataX {
                    dirty: true,
                    player_game_data: PlayerGameData {
                        strength,
                        ..old(self).raw.user_data_x@[index as int].player_game_data
                    },
                    ..old(self).raw.user_data_x@[index as int]
                }),
            ),
    {
        let ud = &mut self.raw.user_data_x[index];
        ud.player_game_data.strength = strength;
        ud.dirty = true;
        proof {
            lemma_slot_update_wf(*old(self), *self, index as int);
        }
        Ok(())
    }

    /// Overwrite the `dexterity` field of the character at `index`.
    pub fn set_dexterity(&mut self, index: usize, dexterity: u32) -> (r: Result<(), SaveApiError>)
        requires
            old(self).wf(),
            index < CHAR_SLOTS,
        ensures
            final(self).wf(),
            r is Ok,
            final(self).raw.header == old(self).raw.header,
            final(self).raw.user_data_10 == old(self).raw.user_data_10,
            final(self).raw.user_data_11 == old(self).raw.user_data_11,
            final(self).flag_index == old(self).flag_index,
            final(self).raw.user_data_x@ == old(self).raw.user_data_x@.update(
                index as int,
                (UserDataX {
                    dirty: true,
                    player_game_data: PlayerGameData {
                        dexterity,
                        ..old(self).raw.user_data_x@[index as int].player_game_data
                    },
                    ..old(self).raw.user_data_x@[index as int]
                }),
            ),
    {
        let ud = &mut self.raw.user_data_x[index];
        ud.player_game_data.dexterity = dexterity;
        ud.dirty = true;
        proof {
            lemma_slot_update_wf(*old(self), *self, index as int);
        }
        Ok(())
    }

    /// Overwrite the `intelligence` field of the character at `index`.
    pub fn set_intelligence(&mut self, index: usize, intelligence: u32) -> (r: Result<(), SaveApiError>)
        requires
            old(self).wf(),
            index < CHAR_SLOTS,
        ensures
            final(self).wf(),
            r is Ok,
            final(self).raw.header == old(self).raw.header,
            final(self).raw.user_data_10 == old(self).raw.user_data_10,
            final(self).raw.user_data_11 == old(self).raw.user_data_11,
            final(self).flag_index == old(self).flag_index,
            final(self).raw.user_data_x@ == old(self).raw.user_data_x@.update(
                index as int,
                (UserDataX {
                    dirty: true,
                    player_game_data: PlayerGameData {
                        intelligence,
                        ..old(self).raw.user_data_x@[index as int].player_game_data
                    },
                    ..old(self).raw.user_data_x@[index as int]
                }),
            ),
    {
        let ud = &mut self.raw.user_data_x[index];
        ud.player_game_data.intelligence = intelligence;
        ud.dirty = true;
        proof {
            lemma_slot_update_wf(*old(self), *self, index as int);
        }
        Ok(())
    }

    /// Overwrite the `faith` field of the character at `index`.
    pub fn set_faith(&mut self, index: usize, faith: u32) -> (r: Result<(), SaveApiError>)
        requires
            old(self).wf(),
            index < CHAR_SLOTS,
        ensures
            final(self).wf(),
            r is Ok,
            final(self).raw.header == old(self).raw.header,
            final(self).raw.user_data_10 == old(self).raw.user_data_10,
            final(self).raw.user_data_11 == old(self).raw.user_data_11,
            final(self).flag_index == old(self).flag_index,
            final(self).raw.user_data_x@ == old(self).raw.user_data_x@.update(
                index as int,
                (UserDataX {
                    dirty: true,
                    player_game_data: PlayerGameData {
                        faith,
                        ..old(self).raw.user_data_x@[index as int].player_game_data
                    },
                    ..old(self).raw.user_data_x@[index as int]
                }),
            ),
    {
        let ud = &mut self.raw.user_data_x[index];
        ud.player_game_data.faith = faith;
        ud.dirty = true;
        proof {
            lemma_slot_update_wf(*old(self), *self, index as int);
        }
        Ok(())
    }

    /// Overwrite the `arcane` field of the character at `index`.
    pub fn set_arcane(&mut self, index: usize, arcane: u32) -> (r: Result<(), SaveApiError>)
        requires
            old(self).wf(),
            index < CHAR_SLOTS,
        ensures
            final(self).wf(),
            r is Ok,
            final(self).raw.header == old(self).raw.header,
            final(self).raw.user_data_10 == old(self).raw.user_data_10,
            final(self).raw.user_data_11 == old(self).raw.user_data_11,
            final(self).flag_index == old(self).flag_index,
            final(self).raw.user_data_x@ == old(self).raw.user_data_x@.update(
                index as int,
                (UserDataX {
                    dirty: true,
                    player_game_data: PlayerGameData {
                        arcane,
                        ..old(self).raw.user_data_x@[index as int].player_game_data
                    },
                    ..old(self).raw.user_data_x@[index as int]
                }),
            ),
    {
        let ud = &mut self.raw.user_data_x[index];
        ud.player_game_data.arcane = arcane;
        ud.dirty = true;
        proof {
            lemma_slot_update_wf(*old(self), *self, index as int);
        }
        Ok(())
    }

    /// Overwrite the `runes` field of the character at `index`.
    pub fn set_runes(&mut self, index: usize, runes: u32) -> (r: Result<(), SaveApiError>)
        requires
            old(self).wf(),
            index < CHAR_SLOTS,
        ensures
            final(self).wf(),
            r is Ok,
            final(self).raw.header == old(self).raw.header,
            final(self).raw.user_data_10 == old(self).raw.user_data_10,
            final(self).raw.user_data_11 == old(self).raw.user_data_11,
            final(self).flag_index == old(self).flag_index,
            final(self).raw.user_data_x@ == old(self).raw.user_data_x@.update(
                index as int,
                (UserDataX {
                    dirty: true,
                    player_game_data: PlayerGameData {
                        runes,
                        ..old(self).raw.user_data_x@[index as int].player_game_data
                    },
                    ..old(self).raw.user_data_x@[index as int]
                }),
            ),
    {
        let ud = &mut self.raw.user_data_x[index];
        ud.player_game_data.runes = runes;
        ud.dirty = true;
        proof {
            lemma_slot_update_wf(*old(self), *self, index as int);
        }
        Ok(())
    }

    /// Overwrite the `level` field of the character at `index`, and mirror
    /// it into the profile-summary entry of the same slot.
    pub fn set_level(&mut self, index: usize, level: u32) -> (r: Result<(), SaveApiError>)
        requires
            old(self).wf(),
            index < CHAR_SLOTS,
        ensures
            final(self).wf(),
            r is Ok,
            final(self).raw.user_data_x@[index as int].player_game_data.level == level,
            final(self).raw.user_data_10.profile_summary.profiles@[index as int].level == level,
            final(self).raw.header == old(self).raw.header,
            final(self).raw.user_data_11 == old(self).raw.user_data_11,
            final(self).flag_index == old(self).flag_index,
            final(self).raw.user_data_x@ == old(self).raw.user_data_x@.update(
                index as int,
                (UserDataX {
                    dirty: true,
                    player_game_data: PlayerGameData {
                        level,
                        ..old(self).raw.user_data_x@[index as int].player_game_data
                    },
                    ..old(self).raw.user_data_x@[index as int]
                }),
            ),
            final(self).raw.user_data_10 == (UserData10 {
                dirty: true,
                profile_summary: crate::profile::ProfileSummary {
                    active_profiles: old(self).raw.user_data_10.profile_summary.active_profiles,
                    profiles: final(self).raw.user_data_10.profile_summary.profiles,
                },
                ..old(self).raw.user_data_10
            }),
            final(self).raw.user_data_10.profile_summary.profiles@ == old(
                self,
            ).raw.user_data_10.profile_summary.profiles@.update(
                index as int,
                (crate::profile::ProfileEntry {
                    level,
                    ..old(self).raw.user_data_10.profile_summary.profiles@[index as int]
                }),
            ),
    {
        let ud = &mut self.raw.user_data_x[index];
        ud.player_game_data.level = level;
        ud.dirty = true;
        let e = &mut self.raw.user_data_10.profile_summary.profiles[index];
        e.level = level;
        self.raw.user_data_10.dirty = true;
        proof {
            lemma_slot_update_wf(*old(self), *self, index as int);
            lemma_profile_update_wf(*old(self), *self, index as int);
        }
        Ok(())
    }

    /// Overwrite the `runes_memory` field of the character at `index`, and mirror
    /// it into the profile-summary entry of the same slot.
    pub fn set_runes_memory(&mut self, index: usize, runes_memory: u32) -> (r: Result<(), SaveApiError>)
        requires
            old(self).wf(),
            index < CHAR_SLOTS,
        ensures
            final(self).wf(),
            r is Ok,
            final(self).raw.user_data_x@[index as int].player_game_data.runes_memory == runes_memory,
            final(self).raw.user_data_10.profile_summary.profiles@[index as int].runes_memory == runes_memory,
            final(self).raw.header == old(self).raw.header,
            final(self).raw.user_data_11 == old(self).raw.user_data_11,
            final(self).flag_index == old(self).flag_index,
            final(self).raw.user_data_x@ == old(self).raw.user_data_x@.update(
                index as int,
                (UserDataX {
                    dirty: true,
                    player_game_data: PlayerGameData {
                        runes_memory,
                        ..old(self).raw.user_data_x@[index as int].player_game_data
                    },
                    ..old(self).raw.user_data_x@[index as int]
                }),
            ),
            final(self).raw.user_data_10 == (UserData10 {
                dirty: true,
                profile_summary: crate::profile::ProfileSummary {
                    active_profiles: old(self).raw.user_data_10.profile_summary.active_profiles,
                    profiles: final(self).raw.user_data_10.profile_summary.profiles,
                },
                ..old(self).raw.user_data_10
            }),
            final(self).raw.user_data_10.profile_summary.profiles@ == old(
                self,
            ).raw.user_data_10.profile_summary.profiles@.update(
                index as int,
                (crate::profile::ProfileEntry {
                    runes_memory,
                    ..old(self).raw.user_data_10.profile_summary.profiles@[index as int]
                }),
            ),
    {
        let ud = &mut self.raw.user_data_x[index];
        ud.player_game_data.runes_memory = runes_memory;
        ud.dirty = true;
        let e = &mut self.raw.user_data_10.profile_summary.profiles[index];
        e.runes_memory = runes_memory;
        self.raw.user_data_10.dirty = true;
        proof {
            lemma_slot_update_wf(*old(self), *self, index as int);
            lemma_profile_update_wf(*old(self), *self, index as int);
        }
        Ok(())
    }

    /// Overwrite the `archetype` field of the character at `index`, and mirror
    /// it into the profile-summary entry of the same slot.
    pub fn set_archetype(&mut self, index: usize, archetype: u8) -> (r: Result<(), SaveApiError>)
        requires
            old(self).wf(),
            index < CHAR_SLOTS,
        ensures
            final(self).wf(),
            r is Ok,
            final(self).raw.user_data_x@[index as int].player_game_data.archetype == archetype,
            final(self).raw.user_data_10.profile_summary.profiles@[index as int].archetype == archetype,
            final(self).raw.header == old(self).raw.header,
            final(self).raw.user_data_11 == old(self).raw.user_data_11,
            final(self).flag_index == old(self).flag_index,
            final(self).raw.user_data_x@ == old(self).raw.user_data_x@.update(
                index as int,
                (UserDataX {
                    dirty: true,
                    player_game_data: PlayerGameData {
                        archetype,
                        ..old(self).raw.user_data_x@[index as int].player_game_data
                    },
                    ..old(self).raw.user_data_x@[index as int]
                }),
            ),
            final(self).raw.user_data_10 == (UserData10 {
                dirty: true,
                profile_summary: crate::profile::ProfileSummary {
                    active_profiles: old(self).raw.user_data_10.profile_summary.active_profiles,
                    profiles: final(self).raw.user_data_10.profile_summary.profiles,
                },
                ..old(self).raw.user_data_10
            }),
            final(self).raw.user_data_10.profile_summary.profiles@ == old(
                self,
            ).raw.user_data_10.profile_summary.profiles@.update(
                index as int,
                (crate::profile::ProfileEntry {
                    archetype,
                    ..old(self).raw.user_data_10.profile_summary.profiles@[index as int]
                }),
            ),
    {
        let ud = &mut self.raw.user_data_x[index];
        ud.player_game_data.archetype = archetype;
        ud.dirty = true;
        let e = &mut self.raw.user_data_10.profile_summary.profiles[index];
        e.archetype = archetype;
        self.raw.user_data_10.dirty = true;
        proof {
            lemma_slot_update_wf(*old(self), *self, index as int);
            lemma_profile_update_wf(*old(self), *self, index as int);
        }
        Ok(())
    }

    /// Overwrite the `gender` field of the character at `index`, and mirror
    /// it into the profile-summary entry of the same slot.
    pub fn set_gender(&mut self, index: usize, gender: u8) -> (r: Result<(), SaveApiError>)
        requires
            old(self).wf(),
            index < CHAR_SLOTS,
        ensures
            final(self).wf(),
            r is Ok,
            final(self).raw.user_data_x@[index as int].player_game_data.gender == gender,
            final(self).raw.user_data_10.profile_summary.profiles@[index as int].gender == gender,
            final(self).raw.header == old(self).raw.header,
            final(self).raw.user_data_11 == old(self).raw.user_data_11,
            final(self).flag_index == old(self).flag_index,
            final(self).raw.user_data_x@ == old(self).raw.user_data_x@.update(
                index as int,
                (UserDataX {
                    dirty: true,
                    player_game_data: PlayerGameData {
                        gender,
                        ..old(self).raw.user_data_x@[index as int].player_game_data
                    },
                    ..old(self).raw.user_data_x@[index as int]
                }),
            ),
            final(self).raw.user_data_10 == (UserData10 {
                dirty: true,
                profile_summary: crate::profile::ProfileSummary {
                    active_profiles: old(self).raw.user_data_10.profile_summary.active_profiles,
                    profiles: final(self).raw.user_data_10.profile_summary.profiles,
                },
                ..old(self).raw.user_data_10
            }),
            final(self).raw.user_data_10.profile_summary.profiles@ == old(
                self,
            ).raw.user_data_10.profile_summary.profiles@.update(
                index as int,
                (crate::profile::ProfileEntry {
                    gender,
                    ..old(self).raw.user_data_10.profile_summary.profiles@[index as int]
                }),
            ),
    {
        let ud = &mut self.raw.user_data_x[index];
        ud.player_game_data.gender = gender;
        ud.dirty = true;
        let e = &mut self.raw.user_data_10.profile_summary.profiles[index];
        e.gender = gender;
        self.raw.user_data_10.dirty = true;
        proof {
            lemma_slot_update_wf(*old(self), *self, index as int);
            lemma_profile_update_wf(*old(self), *self, index as int);
        }
        Ok(())
    }
}

/// A slot edit that keeps every fixed-length field and the list/`rest`
/// coupling keeps the whole container well-formed.
proof fn lemma_slot_update_wf(pre: SaveApi, post: SaveApi, i: int)
    requires
        pre.wf(),
        0 <= i < CHAR_SLOTS,
        post.raw.header == pre.raw.header,
        post.raw.user_data_10.profile_summary.profiles@.len() == pre
            .raw.user_data_10.profile_summary.profiles@.len(),
        post.flag_index == pre.flag_index,
        post.raw.user_data_x@.len() == pre.raw.user_data_x@.len(),
        forall|j: int|
            0 <= j < CHAR_SLOTS && j != i ==> post.raw.user_data_x@[j] == pre.raw.user_data_x@[j],
        slot_scalar_edit(pre.raw.user_data_x@[i], post.raw.user_data_x@[i]),
    ensures
        post.raw.spec_variant() == pre.raw.spec_variant(),
        forall|j: int|
            0 <= j < CHAR_SLOTS ==> (#[trigger] post.raw.user_data_x@[j]).wf(
                post.raw.spec_variant(),
            ),
{
    assert forall|j: int|
        0 <= j < CHAR_SLOTS implies (#[trigger] post.raw.user_data_x@[j]).wf(
        post.raw.spec_variant(),
    ) by {
        if j != i {
            assert(post.raw.user_data_x@[j] == pre.raw.user_data_x@[j]);
        }
    }
}

/// The slot differs only in scalars and the dirty mark.
pub open spec fn slot_scalar_edit(pre: UserDataX, post: UserDataX) -> bool {
    &&& post.raw == pre.raw
    &&& post.iv == pre.iv
    &&& post.event_flags == pre.event_flags
    &&& post.equipped_gestures == pre.equipped_gestures
    &&& post.unlocked_regions == pre.unlocked_regions
    &&& post.rest == pre.rest
    &&& post.player_game_data.character_name == pre.player_game_data.character_name
    &&& post.player_game_data.pad == pre.player_game_data.pad
}

/// A profile-entry edit that keeps the entry's name keeps the summary
/// well-formed.
proof fn lemma_profile_update_wf(pre: SaveApi, post: SaveApi, i: int)
    requires
        pre.wf(),
        0 <= i < CHAR_SLOTS,
        post.raw.header == pre.raw.header,
        post.raw.user_data_10.raw == pre.raw.user_data_10.raw,
        post.raw.user_data_10.iv == pre.raw.user_data_10.iv,
        post.raw.user_data_10.tail == pre.raw.user_data_10.tail,
        post.raw.user_data_10.profile_summary.active_profiles == pre
            .raw.user_data_10.profile_summary.active_profiles,
        post.raw.user_data_10.profile_summary.profiles@.len() == pre
            .raw.user_data_10.profile_summary.profiles@.len(),
        forall|j: int|
            0 <= j < CHAR_SLOTS && j != i
                ==> post.raw.user_data_10.profile_summary.profiles@[j] == pre
                .raw.user_data_10.profile_summary.profiles@[j],
        post.raw.user_data_10.profile_summary.profiles@[i].character_name == pre
            .raw.user_data_10.profile_summary.profiles@[i].character_name,
    ensures
        post.raw.user_data_10.wf(post.raw.spec_variant()),
{
    assert(post.raw.spec_variant() == pre.raw.spec_variant());
    assert forall|j: int|
        0 <= j < CHAR_SLOTS implies (
    #[trigger] post.raw.user_data_10.profile_summary.profiles@[j]).wf() by {
        if j != i {
            assert(post.raw.user_data_10.profile_summary.profiles@[j] == pre
                .raw.user_data_10.profile_summary.profiles@[j]);
        }
    }
}


impl SaveApi {
    /// The equipped-gesture id list of the character at `index`.
    pub fn equipped_gestures(&self, index: usize) -> (r: &Vec<u32>)
        requires
            self.wf(),
            index < CHAR_SLOTS,
        ensures
            r@ == self.raw.user_data_x@[index as int].equipped_gestures@,
    {
        &self.raw.user_data_x[index].equipped_gestures
    }

    /// Replace the equipped-gesture list of the character at `index`.
    /// `rest` shrinks or grows by the size difference; a list that does
    /// not fit the record's capacity is rejected and nothing changes.
    pub fn set_equipped_gestures(&mut self, index: usize, new_gestures: Vec<u32>) -> (r: Result<
        (),
        SaveApiError,
    >)
        requires
            old(self).wf(),
            index < CHAR_SLOTS,
        ensures
            final(self).wf(),
            final(self).raw.header == old(self).raw.header,
            final(self).raw.user_data_10 == old(self).raw.user_data_10,
            final(self).raw.user_data_11 == old(self).raw.user_data_11,
            final(self).flag_index == old(self).flag_index,
            forall|j: int|
                0 <= j < CHAR_SLOTS && j != index ==> final(self).raw.user_data_x@[j] == old(
                    self,
                ).raw.user_data_x@[j],
            r is Ok <==> 4 * new_gestures@.len() <= 4 * old(
                self,
            ).raw.user_data_x@[index as int].equipped_gestures@.len() + old(
                self,
            ).raw.user_data_x@[index as int].rest@.len(),
            r is Ok ==> {
                let s_old = old(self).raw.user_data_x@[index as int];
                let s_new = final(self).raw.user_data_x@[index as int];
                &&& s_new.equipped_gestures@ == new_gestures@
                &&& s_new.unlocked_regions == s_old.unlocked_regions
                &&& s_new.rest@.len() == s_old.rest@.len() + 4 * s_old.equipped_gestures@.len()
                    - 4 * new_gestures@.len()
                &&& s_new.dirty
                &&& s_new.same_but_lists(s_old)
            },
            r is Err ==> r == Err::<(), SaveApiError>(SaveApiError::RecordCapacityExceeded(index))
                && final(self).raw.user_data_x@ == old(self).raw.user_data_x@,
    {
        let ud = &mut self.raw.user_data_x[index];
        if ud.set_equipped_gestures(new_gestures) {
            proof {
                lemma_slot_list_update_wf(*old(self), *self, index as int);
            }
            Ok(())
        } else {
            proof {
                assert(self.raw.user_data_x@ =~= old(self).raw.user_data_x@);
            }
            Err(SaveApiError::RecordCapacityExceeded(index))
        }
    }

    /// The unlocked-region id list of the character at `index`.
    pub fn regions(&self, index: usize) -> (r: Result<&Vec<u32>, SaveApiError>)
        requires
            self.wf(),
            index < CHAR_SLOTS,
        ensures
            r is Ok,
            r->Ok_0@ == self.raw.user_data_x@[index as int].unlocked_regions.ids@,
    {
        Ok(&self.raw.user_data_x[index].unlocked_regions.ids)
    }

    /// The recorded unlocked-region count of the character at `index`.
    pub fn regions_count(&self, index: usize) -> (r: Result<u32, SaveApiError>)
        requires
            self.wf(),
            index < CHAR_SLOTS,
        ensures
            r is Ok,
            r->Ok_0 == self.raw.user_data_x@[index as int].unlocked_regions.count,
            r->Ok_0 == self.raw.user_data_x@[index as int].unlocked_regions.ids@.len(),
    {
        Ok(self.raw.user_data_x[index].unlocked_regions.count)
    }

    /// Unlock a region for the character at `index`: the id is appended
    /// and `rest` shrinks by the four bytes the id occupies.  An id that
    /// is already present changes nothing.  A record whose capacity is
    /// exhausted is rejected and nothing changes.
    pub fn add_region(&mut self, index: usize, region_id: u32) -> (r: Result<(), SaveApiError>)
        requires
            old(self).wf(),
            index < CHAR_SLOTS,
        ensures
            final(self).wf(),
            final(self).raw.header == old(self).raw.header,
            final(self).raw.user_data_10 == old(self).raw.user_data_10,
            final(self).raw.user_data_11 == old(self).raw.user_data_11,
            final(self).flag_index == old(self).flag_index,
            forall|j: int|
                0 <= j < CHAR_SLOTS && j != index ==> final(self).raw.user_data_x@[j] == old(
                    self,
                ).raw.user_data_x@[j],
            old(self).raw.user_data_x@[index as int].unlocked_regions.ids@.contains(region_id)
                ==> r is Ok && final(self).raw.user_data_x@ == old(self).raw.user_data_x@,
            !old(self).raw.user_data_x@[index as int].unlocked_regions.ids@.contains(region_id)
                && old(self).raw.user_data_x@[index as int].rest@.len() >= 4 ==> {
                let s_old = old(self).raw.user_data_x@[index as int];
                let s_new = final(self).raw.user_data_x@[index as int];
                &&& r is Ok
                &&& s_new.unlocked_regions.ids@ == s_old.unlocked_regions.ids@.push(region_id)
                &&& s_new.unlocked_regions.count == s_old.unlocked_regions.count + 1
                &&& s_new.rest@ == s_old.rest@.subrange(0, s_old.rest@.len() - 4)
                &&& s_new.equipped_gestures == s_old.equipped_gestures
                &&& s_new.dirty
                &&& s_new.same_but_lists(s_old)
            },
            !old(self).raw.user_data_x@[index as int].unlocked_regions.ids@.contains(region_id)
                && old(self).raw.user_data_x@[index as int].rest@.len() < 4 ==> r == Err::<
                (),
                SaveApiError,
            >(SaveApiError::RecordCapacityExceeded(index)) && final(self).raw.user_data_x@ == old(
                self,
            ).raw.user_data_x@,
    {
        let ud = &mut self.raw.user_data_x[index];
        if ud.add_region(region_id) {
            proof {
                assert(self.raw.user_data_x@ =~= old(self).raw.user_data_x@.update(
                    index as int,
                    self.raw.user_data_x@[index as int],
                ));
                if old(self).raw.user_data_x@[index as int].unlocked_regions.ids@.contains(
                    region_id,
                ) {
                    assert(self.raw.user_data_x@ =~= old(self).raw.user_data_x@);
                }
                lemma_slot_list_update_wf(*old(self), *self, index as int);
            }
            Ok(())
        } else {
            proof {
                assert(self.raw.user_data_x@ =~= old(self).raw.user_data_x@);
            }
            Err(SaveApiError::RecordCapacityExceeded(index))
        }
    }

    /// Lock a region for the character at `index`: the first occurrence
    /// of the id is removed and `rest` grows by four zero bytes.  An id
    /// that is not present changes nothing.
    pub fn remove_region(&mut self, index: usize, region_id: u32) -> (r: Result<
        (),
        SaveApiError,
    >)
        requires
            old(self).wf(),
            index < CHAR_SLOTS,
        ensures
            final(self).wf(),
            r is Ok,
            final(self).raw.header == old(self).raw.header,
            final(self).raw.user_data_10 == old(self).raw.user_data_10,
            final(self).raw.user_data_11 == old(self).raw.user_data_11,
            final(self).flag_index == old(self).flag_index,
            forall|j: int|
                0 <= j < CHAR_SLOTS && j != index ==> final(self).raw.user_data_x@[j] == old(
                    self,
                ).raw.user_data_x@[j],
            !old(self).raw.user_data_x@[index as int].unlocked_regions.ids@.contains(region_id)
                ==> final(self).raw.user_data_x@ == old(self).raw.user_data_x@,
            old(self).raw.user_data_x@[index as int].unlocked_regions.ids@.contains(region_id)
                ==> {
                let s_old = old(self).raw.user_data_x@[index as int];
                let s_new = final(self).raw.user_data_x@[index as int];
                &&& s_new.unlocked_regions.ids@ == s_old.unlocked_regions.ids@.remove(
                    s_old.unlocked_regions.ids@.index_of_first(region_id)->0,
                )
                &&& s_new.unlocked_regions.count == s_old.unlocked_regions.count - 1
                &&& s_new.rest@ == s_old.rest@ + seq![0u8, 0u8, 0u8, 0u8]
                &&& s_new.equipped_gestures == s_old.equipped_gestures
                &&& s_new.dirty
                &&& s_new.same_but_lists(s_old)
            },
    {
        let ud = &mut self.raw.user_data_x[index];
        ud.remove_region(region_id);
        proof {
            if !old(self).raw.user_data_x@[index as int].unlocked_regions.ids@.contains(
                region_id,
            ) {
                assert(self.raw.user_data_x@ =~= old(self).raw.user_data_x@);
            }
            lemma_slot_list_update_wf(*old(self), *self, index as int);
        }
        Ok(())
    }

    /// The name of the character at `index`, decoded from its stored
    /// zero-padded field; a stored name that is not valid UTF-8 decodes
    /// to the empty string.
    pub fn character_name(&self, index: usize) -> (r: String)
        requires
            self.wf(),
            index < CHAR_SLOTS,
        ensures
            r@ == crate::names::name_to_chars(
                self.raw.user_data_x@[index as int].player_game_data.character_name@,
            ),
    {
        let trimmed = crate::names::trim_at_zero(
            &self.raw.user_data_x[index].player_game_data.character_name,
        );
        match crate::names::string_from_bytes(trimmed) {
            Some(s) => s,
            None => String::new(),
        }
    }

    /// Rename the character at `index`, mirroring the new name into the
    /// profile-summary entry of the same slot.  The name must be ASCII
    /// and fit the fixed-width field.
    pub fn set_character_name(&mut self, index: usize, new_name: &str) -> (r: Result<
        (),
        SaveApiError,
    >)
        requires
            old(self).wf(),
            index < CHAR_SLOTS,
        ensures
            final(self).wf(),
            r is Ok <==> new_name.is_ascii() && new_name.spec_bytes().len() <= NAME_LEN,
            r is Err ==> r == Err::<(), SaveApiError>(SaveApiError::InvalidCharacterName)
                && *final(self) == *old(self),
            r is Ok ==> {
                let stored = crate::names::pad_zero(new_name.spec_bytes(), NAME_LEN as int);
                &&& final(self).raw.user_data_x@[index as int].player_game_data.character_name@
                    == stored
                &&& final(self).raw.user_data_10.profile_summary.profiles@[index as int].character_name@
                    == stored
                &&& final(self).raw.header == old(self).raw.header
                &&& final(self).raw.user_data_11 == old(self).raw.user_data_11
                &&& final(self).flag_index == old(self).flag_index
                &&& final(self).raw.user_data_x@[index as int].dirty
                &&& final(self).raw.user_data_10.dirty
                &&& (forall|j: int|
                    0 <= j < CHAR_SLOTS && j != index ==> final(self).raw.user_data_x@[j] == old(
                        self,
                    ).raw.user_data_x@[j])
                &&& (forall|j: int|
                    0 <= j < CHAR_SLOTS && j != index
                        ==> final(self).raw.user_data_10.profile_summary.profiles@[j] == old(
                        self,
                    ).raw.user_data_10.profile_summary.profiles@[j])
                &&& final(self).raw.user_data_x@[index as int] == (UserDataX {
                    dirty: true,
                    player_game_data: PlayerGameData {
                        character_name: final(self).raw.user_data_x@[index as int].player_game_data.character_name,
                        ..old(self).raw.user_data_x@[index as int].player_game_data
                    },
                    ..old(self).raw.user_data_x@[index as int]
                })
                &&& final(self).raw.user_data_10.profile_summary.profiles@[index as int]
                    == (crate::profile::ProfileEntry {
                    character_name: final(self).raw.user_data_10.profile_summary.profiles@[index as int].character_name,
                    ..old(self).raw.user_data_10.profile_summary.profiles@[index as int]
                })
                &&& final(self).raw.user_data_10 == (UserData10 {
                    dirty: true,
                    profile_summary: crate::profile::ProfileSummary {
                        active_profiles: old(
                            self,
                        ).raw.user_data_10.profile_summary.active_profiles,
                        profiles: final(self).raw.user_data_10.profile_summary.profiles,
                    },
                    ..old(self).raw.user_data_10
                })
            },
    {
        let stored = match crate::names::padded_name(new_name, NAME_LEN) {
            Some(b) => b,
            None => {
                return Err(SaveApiError::InvalidCharacterName);
            },
        };
        let stored2 = match crate::names::padded_name(new_name, NAME_LEN) {
            Some(b) => b,
            None => {
                return Err(SaveApiError::InvalidCharacterName);
            },
        };
        let ud = &mut self.raw.user_data_x[index];
        ud.player_game_data.character_name = stored;
        ud.dirty = true;
        let e = &mut self.raw.user_data_10.profile_summary.profiles[index];
        e.character_name = stored2;
        self.raw.user_data_10.dirty = true;
        proof {
            assert(self.raw.user_data_x@[index as int].core_wf());
            lemma_slot_list_update_wf(*old(self), *self, index as int);
            lemma_profile_update_wf2(*old(self), *self, index as int);
        }
        Ok(())
    }

    /// The index of the first character whose stored name contains
    /// `name`'s bytes as a contiguous run.
    pub fn character_index_from_name(&self, name: &str) -> (r: Option<usize>)
        requires
            self.wf(),
        ensures
            match r {
                Some(i) => {
                    &&& i < CHAR_SLOTS
                    &&& crate::names::contains_sub(
                        crate::names::name_trim(
                            self.raw.user_data_10.profile_summary.profiles@[i as int]
                                .character_name@,
                        ),
                        name.spec_bytes(),
                    )
                    &&& forall|j: int|
                        0 <= j < i ==> !crate::names::contains_sub(
                            crate::names::name_trim(
                                #[trigger] self.raw.user_data_10.profile_summary.profiles@[j]
                                    .character_name@,
                            ),
                            name.spec_bytes(),
                        )
                },
                None => forall|j: int|
                    0 <= j < CHAR_SLOTS ==> !crate::names::contains_sub(
                        crate::names::name_trim(
                            #[trigger] self.raw.user_data_10.profile_summary.profiles@[j]
                                .character_name@,
                        ),
                        name.spec_bytes(),
                    ),
            },
    {
        let needle = vstd::slice::slice_to_vec(name.as_bytes());
        let mut i: usize = 0;
        while i < CHAR_SLOTS
            invariant
                self.wf(),
                i <= CHAR_SLOTS,
                needle@ == name.spec_bytes(),
                forall|j: int|
                    0 <= j < i ==> !crate::names::contains_sub(
                        crate::names::name_trim(
                            #[trigger] self.raw.user_data_10.profile_summary.profiles@[j]
                                .character_name@,
                        ),
                        name.spec_bytes(),
                    ),
            decreases CHAR_SLOTS - i,
        {
            let trimmed = crate::names::trim_at_zero(
                &self.raw.user_data_10.profile_summary.profiles[i].character_name,
            );
            if crate::names::contains_bytes(&trimmed, &needle) {
                return Some(i);
            }
            i = i + 1;
        }
        None
    }

    /// Which character slots are active, read from the profile summary's
    /// activity bytes (any nonzero byte marks an active slot).
    pub fn active_characters(&self) -> (r: [bool; 10])
        requires
            self.wf(),
        ensures
            forall|k: int|
                0 <= k < CHAR_SLOTS ==> r@[k] == (
                self.raw.user_data_10.profile_summary.active_profiles@[k] != 0),
    {
        let a = &self.raw.user_data_10.profile_summary.active_profiles;
        [
            a[0] != 0,
            a[1] != 0,
            a[2] != 0,
            a[3] != 0,
            a[4] != 0,
            a[5] != 0,
            a[6] != 0,
            a[7] != 0,
            a[8] != 0,
            a[9] != 0,
        ]
    }
}

/// A slot edit that changes only the id lists, `rest` and the dirty mark,
/// preserving the record's coupling invariant, keeps every slot
/// well-formed.
proof fn lemma_slot_list_update_wf(pre: SaveApi, post: SaveApi, i: int)
    requires
        pre.wf(),
        0 <= i < CHAR_SLOTS,
        post.raw.header == pre.raw.header,
        post.raw.user_data_x@.len() == pre.raw.user_data_x@.len(),
        forall|j: int|
            0 <= j < CHAR_SLOTS && j != i ==> post.raw.user_data_x@[j] == pre.raw.user_data_x@[j],
        post.raw.user_data_x@[i].core_wf(),
        post.raw.user_data_x@[i].raw == pre.raw.user_data_x@[i].raw,
        post.raw.user_data_x@[i].iv == pre.raw.user_data_x@[i].iv,
    ensures
        post.raw.spec_variant() == pre.raw.spec_variant(),
        forall|j: int|
            0 <= j < CHAR_SLOTS ==> (#[trigger] post.raw.user_data_x@[j]).wf(
                post.raw.spec_variant(),
            ),
{
    assert forall|j: int|
        0 <= j < CHAR_SLOTS implies (#[trigger] post.raw.user_data_x@[j]).wf(
        post.raw.spec_variant(),
    ) by {
        if j != i {
            assert(post.raw.user_data_x@[j] == pre.raw.user_data_x@[j]);
        }
    }
}

/// A profile-entry edit of any entry fields keeps the summary well-formed
/// as long as the entry's name keeps its fixed width.
proof fn lemma_profile_update_wf2(pre: SaveApi, post: SaveApi, i: int)
    requires
        pre.wf(),
        0 <= i < CHAR_SLOTS,
        post.raw.header == pre.raw.header,
        post.raw.user_data_10.raw == pre.raw.user_data_10.raw,
        post.raw.user_data_10.iv == pre.raw.user_data_10.iv,
        post.raw.user_data_10.tail == pre.raw.user_data_10.tail,
        post.raw.user_data_10.profile_summary.active_profiles == pre
            .raw.user_data_10.profile_summary.active_profiles,
        post.raw.user_data_10.profile_summary.profiles@.len() == pre
            .raw.user_data_10.profile_summary.profiles@.len(),
        forall|j: int|
            0 <= j < CHAR_SLOTS && j != i
                ==> post.raw.user_data_10.profile_summary.profiles@[j] == pre
                .raw.user_data_10.profile_summary.profiles@[j],
        post.raw.user_data_10.profile_summary.profiles@[i].character_name@.len()
            == crate::layout::NAME_LEN,
    ensures
        post.raw.user_data_10.wf(post.raw.spec_variant()),
{
    assert(post.raw.spec_variant() == pre.raw.spec_variant());
    assert forall|j: int|
        0 <= j < CHAR_SLOTS implies (
    #[trigger] post.raw.user_data_10.profile_summary.profiles@[j]).wf() by {
        if j != i {
            assert(post.raw.user_data_10.profile_summary.profiles@[j] == pre
                .raw.user_data_10.profile_summary.profiles@[j]);
        }
    }
}


impl SaveApi {
    /// Read the event flag `event_id` of the character at
    /// `character_index`.
    ///
    /// A slot outside the valid range is a bounds error; an id the flag
    /// index does not know is `EventIdNotFound`, an expected, recoverable
    /// condition.
    pub fn get_event_flag(&self, event_id: u32, character_index: usize) -> (r: Result<
        bool,
        SaveApiError,
    >)
        requires
            self.wf(),
        ensures
            character_index >= CHAR_SLOTS ==> r == Err::<bool, SaveApiError>(
                SaveApiError::CharacterIndexOutOfBounds(character_index),
            ),
            character_index < CHAR_SLOTS && crate::flags::spec_lookup(
                self.flag_index.pairs@,
                event_id,
            ) is None ==> r == Err::<bool, SaveApiError>(SaveApiError::EventIdNotFound(event_id)),
            character_index < CHAR_SLOTS && crate::flags::spec_lookup(
                self.flag_index.pairs@,
                event_id,
            ) is Some ==> r == Ok::<bool, SaveApiError>(
                crate::flags::spec_bit(
                    self.raw.user_data_x@[character_index as int].event_flags@,
                    crate::flags::spec_lookup(self.flag_index.pairs@, event_id)->0 as int,
                ),
            ),
    {
        if character_index >= CHAR_SLOTS {
            return Err(SaveApiError::CharacterIndexOutOfBounds(character_index));
        }
        match self.flag_index.lookup(event_id) {
            None => Err(SaveApiError::EventIdNotFound(event_id)),
            Some(off) => {
                proof {
                    lemma_lookup_offset_in_range(self.flag_index, event_id, off);
                }
                Ok(crate::flags::get_bit(
                    &self.raw.user_data_x[character_index].event_flags,
                    off,
                ))
            },
        }
    }

    /// Write the event flag `event_id` of the character at
    /// `character_index`.  Exactly one bit of that character's flag block
    /// changes; every other byte of the block, and every other section,
    /// is untouched.
    pub fn set_event_flag(&mut self, event_id: u32, character_index: usize, on: bool) -> (r:
        Result<(), SaveApiError>)
        requires
            old(self).wf(),
        ensures
            final(self).wf(),
            final(self).raw.header == old(self).raw.header,
            final(self).raw.user_data_10 == old(self).raw.user_data_10,
            final(self).raw.user_data_11 == old(self).raw.user_data_11,
            final(self).flag_index == old(self).flag_index,
            character_index >= CHAR_SLOTS ==> r == Err::<(), SaveApiError>(
                SaveApiError::CharacterIndexOutOfBounds(character_index),
            ) && final(self).raw.user_data_x@ == old(self).raw.user_data_x@,
            character_index < CHAR_SLOTS && crate::flags::spec_lookup(
                old(self).flag_index.pairs@,
                event_id,
            ) is None ==> r == Err::<(), SaveApiError>(SaveApiError::EventIdNotFound(event_id))
                && final(self).raw.user_data_x@ == old(self).raw.user_data_x@,
            character_index < CHAR_SLOTS && crate::flags::spec_lookup(
                old(self).flag_index.pairs@,
                event_id,
            ) is Some ==> {
                let off = crate::flags::spec_lookup(old(self).flag_index.pairs@, event_id)->0;
                let s_old = old(self).raw.user_data_x@[character_index as int];
                let s_new = final(self).raw.user_data_x@[character_index as int];
                &&& r is Ok
                &&& (forall|j: int|
                    0 <= j < CHAR_SLOTS && j != character_index
                        ==> final(self).raw.user_data_x@[j] == old(self).raw.user_data_x@[j])
                &&& s_new == (UserDataX {
                    dirty: true,
                    event_flags: s_new.event_flags,
                    ..s_old
                })
                &&& s_new.event_flags@.len() == s_old.event_flags@.len()
                &&& (forall|j: int|
                    0 <= j < s_old.event_flags@.len() && j != off / 8
                        ==> s_new.event_flags@[j] == s_old.event_flags@[j])
                &&& (forall|b: int|
                    0 <= b < 8 * s_old.event_flags@.len() ==> crate::flags::spec_bit(
                        s_new.event_flags@,
                        b,
                    ) == if b == off {
                        on
                    } else {
                        crate::flags::spec_bit(s_old.event_flags@, b)
                    })
            },
    {
        if character_index >= CHAR_SLOTS {
            return Err(SaveApiError::CharacterIndexOutOfBounds(character_index));
        }
        match self.flag_index.lookup(event_id) {
            None => Err(SaveApiError::EventIdNotFound(event_id)),
            Some(off) => {
                proof {
                    lemma_lookup_offset_in_range(self.flag_index, event_id, off);
                }
                let ud = &mut self.raw.user_data_x[character_index];
                crate::flags::set_bit(&mut ud.event_flags, off, on);
                ud.dirty = true;
                proof {
                    lemma_slot_list_update_wf(*old(self), *self, character_index as int);
                }
                Ok(())
            },
        }
    }
}

/// An offset the flag index hands out addresses a bit of the flag block.
proof fn lemma_lookup_offset_in_range(idx: FlagIndex, event_id: u32, off: u32)
    requires
        idx.wf(),
        crate::flags::spec_lookup(idx.pairs@, event_id) == Some(off),
    ensures
        off < 8 * crate::layout::FLAG_BLOCK_LEN,
{
    let k = choose|k: int| 0 <= k < idx.pairs@.len() && idx.pairs@[k].0 == event_id;
    assert(idx.pairs@[k].1 < 8 * crate::layout::FLAG_BLOCK_LEN);
}


/// Archive entry `k` is the first one named `params`, and the archive
/// around it is sound.
pub open spec fn located_aggregate(pt: Seq<u8>, k: int) -> bool {
    &&& archive_counts_ok(pt)
    &&& zlib_inflate_of(archive_comp(pt)) is Some
    &&& 0 <= k < u32_at(pt, 0)
    &&& archive_entry_window_ok(pt, k)
    &&& archive_entry_name(pt, k) == spec_params_entry_name()
    &&& forall|k2: int|
        0 <= k2 < k ==> #[trigger] archive_entry_name(pt, k2) != spec_params_entry_name()
}

/// The regulation archive holds an aggregate params entry.
pub open spec fn has_aggregate(pt: Seq<u8>) -> bool {
    exists|k: int| #[trigger] located_aggregate(pt, k)
}

/// The bytes of the aggregate params entry.
pub open spec fn aggregate_of(pt: Seq<u8>) -> Seq<u8> {
    entry_at(archive_body(pt), pt, choose|k: int| located_aggregate(pt, k))
}

/// Directory entry `j` of `agg` is the first one named `name`, and its
/// window is sound.
pub open spec fn located_table(agg: Seq<u8>, name: Seq<u8>, j: int) -> bool {
    &&& dir_ok(agg)
    &&& 0 <= j < u32_at(agg, 0)
    &&& dir_entry_name(agg, j) == name
    &&& forall|j2: int| 0 <= j2 < j ==> #[trigger] dir_entry_name(agg, j2) != name
    &&& dir_window_ok(agg, j)
}

/// The aggregate blob holds a table of this name with a sound window.
pub open spec fn has_table(agg: Seq<u8>, name: Seq<u8>) -> bool {
    exists|j: int| #[trigger] located_table(agg, name, j)
}

/// The bytes of the first table named `name`.
pub open spec fn table_bytes_of(agg: Seq<u8>, name: Seq<u8>) -> Seq<u8> {
    dir_slice(agg, choose|j: int| located_table(agg, name, j))
}

/// Two first-match witnesses are the same entry.
proof fn lemma_located_aggregate_unique(pt: Seq<u8>, k1: int, k2: int)
    requires
        located_aggregate(pt, k1),
        located_aggregate(pt, k2),
    ensures
        k1 == k2,
{
    if k1 < k2 {
        assert(archive_entry_name(pt, k1) != spec_params_entry_name());
    }
    if k2 < k1 {
        assert(archive_entry_name(pt, k2) != spec_params_entry_name());
    }
}

/// Two first-match witnesses are the same table.
proof fn lemma_located_table_unique(agg: Seq<u8>, name: Seq<u8>, j1: int, j2: int)
    requires
        located_table(agg, name, j1),
        located_table(agg, name, j2),
    ensures
        j1 == j2,
{
    if j1 < j2 {
        assert(dir_entry_name(agg, j1) != name);
    }
    if j2 < j1 {
        assert(dir_entry_name(agg, j2) != name);
    }
}

impl SaveApi {
    /// Decode the param table this kind's schema names, out of the
    /// regulation archive's aggregate params entry.
    ///
    /// A missing table is `TableNotFound` semantics: expected when the
    /// archive simply lacks that table, and recoverable.  Archive-level
    /// failures are fatal `RegulationParseError`s.
    #[verifier::rlimit(60)]
    pub fn get_param(&self, kind: ParamKind) -> (r: Result<Param, SaveApiError>)
        requires
            self.wf(),
        ensures
            ({
                let reg = self.raw.user_data_11.plaintext@;
                match r {
                    Ok(p) => {
                        &&& has_aggregate(reg)
                        &&& has_table(aggregate_of(reg), spec_schema_name(kind))
                        &&& p.wf()
                        &&& spec_encode_table(p) == table_bytes_of(
                            aggregate_of(reg),
                            spec_schema_name(kind),
                        )
                    },
                    Err(SaveApiError::RegulationParseError(e)) => match e {
                        RegulationParseError::TruncatedEntryTable => !archive_counts_ok(reg),
                        RegulationParseError::Decompression => archive_counts_ok(reg)
                            && zlib_inflate_of(archive_comp(reg)) is None,
                        RegulationParseError::EntryOutOfBounds => archive_counts_ok(reg)
                            && zlib_inflate_of(archive_comp(reg)) is Some && exists|k: int|
                            0 <= k < u32_at(reg, 0) && !(#[trigger] archive_entry_window_ok(
                                reg,
                                k,
                            )),
                        RegulationParseError::MissingParamEntry => archive_counts_ok(reg)
                            && zlib_inflate_of(archive_comp(reg)) is Some && forall|k: int|
                            0 <= k < u32_at(reg, 0) ==> #[trigger] archive_entry_name(reg, k)
                                != spec_params_entry_name(),
                    },
                    Err(SaveApiError::ParamError(e)) => {
                        &&& has_aggregate(reg)
                        &&& match e {
                            ParamParseError::TableNotFound => dir_ok(aggregate_of(reg))
                                && forall|j: int|
                                0 <= j < u32_at(aggregate_of(reg), 0)
                                    ==> #[trigger] dir_entry_name(aggregate_of(reg), j)
                                    != spec_schema_name(kind),
                            ParamParseError::BadDirectory => !dir_ok(aggregate_of(reg))
                                || exists|j: int|
                                {
                                    &&& 0 <= j < u32_at(aggregate_of(reg), 0)
                                    &&& #[trigger] dir_entry_name(aggregate_of(reg), j)
                                        == spec_schema_name(kind)
                                    &&& !dir_window_ok(aggregate_of(reg), j)
                                },
                            ParamParseError::Truncated => {
                                let t = table_bytes_of(
                                    aggregate_of(reg),
                                    spec_schema_name(kind),
                                );
                                has_table(aggregate_of(reg), spec_schema_name(kind)) && (t.len()
                                    < 12 || t.len() >= 0x1_0000_0000 || 12 + u32_at(t, 0)
                                    * u32_at(t, 4) > t.len())
                            },
                            ParamParseError::BadStride => {
                                let t = table_bytes_of(
                                    aggregate_of(reg),
                                    spec_schema_name(kind),
                                );
                                has_table(aggregate_of(reg), spec_schema_name(kind)) && u32_at(
                                    t,
                                    4,
                                ) < 4
                            },
                            ParamParseError::BadNameBlockOffset => {
                                let t = table_bytes_of(
                                    aggregate_of(reg),
                                    spec_schema_name(kind),
                                );
                                has_table(aggregate_of(reg), spec_schema_name(kind)) && u32_at(
                                    t,
                                    8,
                                ) != 12 + u32_at(t, 0) * u32_at(t, 4)
                            },
                            _ => false,
                        }
                    },
                    Err(_) => false,
                }
            }),
    {
        let archive = match crate::regulation::unpack(&self.raw.user_data_11.plaintext) {
            Ok(a) => a,
            Err(e) => {
                return Err(SaveApiError::RegulationParseError(e));
            },
        };
        let pname = params_entry_name();
        let k = match archive.find_entry(&pname) {
            Some(k) => k,
            None => {
                proof {
                    assert forall|k2: int|
                        0 <= k2 < u32_at(self.raw.user_data_11.plaintext@, 0)
                            implies #[trigger] archive_entry_name(
                        self.raw.user_data_11.plaintext@,
                        k2,
                    ) != spec_params_entry_name() by {
                        assert(archive.entries@[k2].name@ == archive_entry_name(
                            self.raw.user_data_11.plaintext@,
                            k2,
                        ));
                    }
                }
                return Err(SaveApiError::RegulationParseError(
                    RegulationParseError::MissingParamEntry,
                ));
            },
        };
        proof {
            lemma_locate_aggregate(self.raw.user_data_11.plaintext@, archive, k as int);
        }
        let agg = &archive.entries[k].data;
        let tname = schema_table_name(kind);
        let j = match dir_find(agg, &tname) {
            Ok(j) => j,
            Err(e) => {
                proof {
                    witness_aggregate(self.raw.user_data_11.plaintext@, k as int);
                }
                return Err(SaveApiError::ParamError(e));
            },
        };
        proof {
            witness_aggregate(self.raw.user_data_11.plaintext@, k as int);
            witness_table(agg@, spec_schema_name(kind), j as int);
        }
        let tbytes = dir_table_bytes(agg, j);
        match decode_table(&tbytes) {
            Ok(p) => Ok(p),
            Err(e) => Err(SaveApiError::ParamError(e)),
        }
    }

    /// The raw bytes of every param table, keyed by directory name, in
    /// directory order: the escape hatch for callers that want tables
    /// this crate has no schema for.
    #[verifier::rlimit(60)]
    #[verifier::spinoff_prover]
    pub fn get_param_bytes_map(&self) -> (r: Result<Vec<(String, Vec<u8>)>, SaveApiError>)
        requires
            self.wf(),
        ensures
            ({
                let reg = self.raw.user_data_11.plaintext@;
                match r {
                    Ok(v) => {
                        let agg = aggregate_of(reg);
                        &&& has_aggregate(reg)
                        &&& dir_ok(agg)
                        &&& v@.len() == u32_at(agg, 0)
                        &&& forall|j: int|
                            0 <= j < v@.len() ==> #[trigger] dir_window_ok(agg, j)
                                && v@[j].1@ == dir_slice(agg, j) && valid_utf8(
                                crate::names::name_trim(dir_entry_name(agg, j)),
                            ) && v@[j].0@ == decode_utf8(
                                crate::names::name_trim(dir_entry_name(agg, j)),
                            )
                    },
                    Err(SaveApiError::RegulationParseError(e)) => match e {
                        RegulationParseError::TruncatedEntryTable => !archive_counts_ok(reg),
                        RegulationParseError::Decompression => archive_counts_ok(reg)
                            && zlib_inflate_of(archive_comp(reg)) is None,
                        RegulationParseError::EntryOutOfBounds => archive_counts_ok(reg)
                            && zlib_inflate_of(archive_comp(reg)) is Some && exists|k: int|
                            0 <= k < u32_at(reg, 0) && !(#[trigger] archive_entry_window_ok(
                                reg,
                                k,
                            )),
                        RegulationParseError::MissingParamEntry => archive_counts_ok(reg)
                            && zlib_inflate_of(archive_comp(reg)) is Some && forall|k: int|
                            0 <= k < u32_at(reg, 0) ==> #[trigger] archive_entry_name(reg, k)
                                != spec_params_entry_name(),
                    },
                    Err(SaveApiError::ParamError(e)) => {
                        &&& has_aggregate(reg)
                        &&& match e {
                            ParamParseError::BadDirectory => {
                                let agg = aggregate_of(reg);
                                !dir_ok(agg) || exists|j: int|
                                    0 <= j < u32_at(agg, 0) && !(#[trigger] dir_window_ok(
                                        agg,
                                        j,
                                    ))
                            },
                            ParamParseError::InvalidTableName => {
                                let agg = aggregate_of(reg);
                                dir_ok(agg) && exists|j: int|
                                    0 <= j < u32_at(agg, 0) && !valid_utf8(
                                        crate::names::name_trim(
                                            #[trigger] dir_entry_name(agg, j),
                                        ),
                                    )
                            },
                            _ => false,
                        }
                    },
                    Err(_) => false,
                }
            }),
    {
        let archive = match crate::regulation::unpack(&self.raw.user_data_11.plaintext) {
            Ok(a) => a,
            Err(e) => {
                return Err(SaveApiError::RegulationParseError(e));
            },
        };
        let pname = params_entry_name();
        let k = match archive.find_entry(&pname) {
            Some(k) => k,
            None => {
                proof {
                    assert forall|k2: int|
                        0 <= k2 < u32_at(self.raw.user_data_11.plaintext@, 0)
                            implies #[trigger] archive_entry_name(
                        self.raw.user_data_11.plaintext@,
                        k2,
                    ) != spec_params_entry_name() by {
                        assert(archive.entries@[k2].name@ == archive_entry_name(
                            self.raw.user_data_11.plaintext@,
                            k2,
                        ));
                    }
                }
                return Err(SaveApiError::RegulationParseError(
                    RegulationParseError::MissingParamEntry,
                ));
            },
        };
        proof {
            lemma_locate_aggregate(self.raw.user_data_11.plaintext@, archive, k as int);
            witness_aggregate(self.raw.user_data_11.plaintext@, k as int);
        }
        let agg = &archive.entries[k].data;
        let n = agg.len();
        if n < 4 {
            return Err(SaveApiError::ParamError(ParamParseError::BadDirectory));
        }
        let count32 = crate::wire::read_u32(agg, 0);
        if 4u64 + 24u64 * (count32 as u64) > (n as u64) {
            return Err(SaveApiError::ParamError(ParamParseError::BadDirectory));
        }
        let count = count32 as usize;
        let mut out: Vec<(String, Vec<u8>)> = Vec::new();
        let mut j: usize = 0;
        while j < count
            invariant
                j <= count,
                count == u32_at(agg@, 0),
                n == agg@.len(),
                4 + 24 * count <= n,
                has_aggregate(self.raw.user_data_11.plaintext@),
                aggregate_of(self.raw.user_data_11.plaintext@) == agg@,
                out@.len() == j,
                forall|t: int|
                    0 <= t < j ==> #[trigger] dir_window_ok(agg@, t) && out@[t].1@ == dir_slice(
                        agg@,
                        t,
                    ) && valid_utf8(crate::names::name_trim(dir_entry_name(agg@, t)))
                        && out@[t].0@ == decode_utf8(
                        crate::names::name_trim(dir_entry_name(agg@, t)),
                    ),
            decreases count - j,
        {
            let base = 4 + 24 * j;
            let ename = crate::wire::take_bytes(agg, base, ENTRY_NAME_LEN);
            let trimmed = crate::names::trim_at_zero(&ename);
            let sname = match crate::names::string_from_bytes(trimmed) {
                Some(s) => s,
                None => {
                    proof {
                        assert(ename@ == dir_entry_name(agg@, j as int));
                        assert(!valid_utf8(
                            crate::names::name_trim(dir_entry_name(agg@, j as int)),
                        ));
                    }
                    return Err(SaveApiError::ParamError(ParamParseError::InvalidTableName));
                },
            };
            let off = crate::wire::read_u32(agg, base + ENTRY_NAME_LEN);
            let len = crate::wire::read_u32(agg, base + ENTRY_NAME_LEN + 4);
            if (off as u64) + (len as u64) > (n as u64) {
                proof {
                    assert(!dir_window_ok(agg@, j as int));
                }
                return Err(SaveApiError::ParamError(ParamParseError::BadDirectory));
            }
            let data = crate::wire::take_bytes(agg, off as usize, len as usize);
            out.push((sname, data));
            j = j + 1;
        }
        proof {
            let reg = self.raw.user_data_11.plaintext@;
            assert(aggregate_of(reg) == agg@);
            assert(dir_ok(agg@));
            assert(out@.len() == u32_at(agg@, 0));
            assert forall|t: int| 0 <= t < out@.len() implies #[trigger] dir_window_ok(agg@, t)
                && out@[t].1@ == dir_slice(agg@, t) && valid_utf8(
                crate::names::name_trim(dir_entry_name(agg@, t)),
            ) && out@[t].0@ == decode_utf8(
                crate::names::name_trim(dir_entry_name(agg@, t)),
            ) by {
                assert(0 <= t < j);
            }
        }
        Ok(out)
    }
}

/// The entry `find_entry` returns for the params name is the located
/// aggregate, so `aggregate_of` is exactly its data.
proof fn lemma_locate_aggregate(
    reg: Seq<u8>,
    archive: crate::regulation::RegulationArchive,
    k: int,
)
    requires
        crate::params::spec_params_entry_name().len() == crate::layout::ENTRY_NAME_LEN,
        archive_counts_ok(reg),
        zlib_inflate_of(archive_comp(reg)) is Some,
        archive.entries@.len() == u32_at(reg, 0),
        forall|k2: int|
            0 <= k2 < archive.entries@.len() ==> (#[trigger] archive.entries@[k2]).name@
                == archive_entry_name(reg, k2),
        forall|k2: int|
            0 <= k2 < archive.entries@.len() ==> (#[trigger] archive.entries@[k2]).data@
                == entry_at(archive_body(reg), reg, k2),
        forall|k2: int|
            0 <= k2 < archive.entries@.len() ==> #[trigger] archive_entry_window_ok(reg, k2),
        0 <= k < archive.entries@.len(),
        archive.entries@[k].name@ == spec_params_entry_name(),
        forall|j: int|
            0 <= j < k ==> (#[trigger] archive.entries@[j]).name@ != spec_params_entry_name(),
    ensures
        located_aggregate(reg, k),
        has_aggregate(reg),
        aggregate_of(reg) == archive.entries@[k].data@,
{
    assert forall|k2: int|
        0 <= k2 < k implies #[trigger] archive_entry_name(reg, k2)
        != spec_params_entry_name() by {
        assert(archive.entries@[k2].name@ == archive_entry_name(reg, k2));
    }
    assert(located_aggregate(reg, k));
    let kc = choose|kc: int| located_aggregate(reg, kc);
    lemma_located_aggregate_unique(reg, k, kc);
}

/// Restate `located_aggregate` at a known witness, for `aggregate_of`.
proof fn witness_aggregate(reg: Seq<u8>, k: int)
    requires
        located_aggregate(reg, k),
    ensures
        has_aggregate(reg),
        aggregate_of(reg) == entry_at(archive_body(reg), reg, k),
{
    let kc = choose|kc: int| located_aggregate(reg, kc);
    lemma_located_aggregate_unique(reg, k, kc);
}

/// Restate `located_table` at a known witness, for `table_bytes_of`.
proof fn witness_table(agg: Seq<u8>, name: Seq<u8>, j: int)
    requires
        located_table(agg, name, j),
    ensures
        has_table(agg, name),
        table_bytes_of(agg, name) == dir_slice(agg, j),
{
    let jc = choose|jc: int| located_table(agg, name, jc);
    lemma_located_table_unique(agg, name, j, jc);
}


/// Round-trip identity: a container loaded from `bytes` and serialized
/// with zero edits yields exactly `bytes` again.  `from_slice` guarantees
/// the first premise of every container it returns, and `to_vec`
/// guarantees the second of every byte vector it returns, so the two calls
/// compose to the identity on the file image.
pub proof fn lemma_round_trip_identity(api: SaveApi, bytes: Seq<u8>, out: Seq<u8>)
    requires
        save_bytes(api.raw) == bytes,
        out == save_bytes(api.raw),
    ensures
        out == bytes,
{
}

/// Setting an event flag and reading it back yields the value written:
/// the premises are exactly what `set_event_flag` ensures of its final
/// state on success, and the conclusion is exactly the value
/// `get_event_flag` is bound to return in that state.
pub proof fn lemma_set_then_get_event_flag(
    pre: SaveApi,
    post: SaveApi,
    event_id: u32,
    character_index: usize,
    on: bool,
)
    requires
        pre.wf(),
        character_index < CHAR_SLOTS,
        post.flag_index == pre.flag_index,
        crate::flags::spec_lookup(pre.flag_index.pairs@, event_id) is Some,
        post.raw.user_data_x@.len() == CHAR_SLOTS,
        pre.raw.user_data_x@.len() == CHAR_SLOTS,
        ({
            let off = crate::flags::spec_lookup(pre.flag_index.pairs@, event_id)->0;
            let s_old = pre.raw.user_data_x@[character_index as int];
            let s_new = post.raw.user_data_x@[character_index as int];
            &&& s_old.event_flags@.len() == crate::layout::FLAG_BLOCK_LEN
            &&& s_new.event_flags@.len() == s_old.event_flags@.len()
            &&& forall|b: int|
                0 <= b < 8 * s_old.event_flags@.len() ==> crate::flags::spec_bit(
                    s_new.event_flags@,
                    b,
                ) == if b == off {
                    on
                } else {
                    crate::flags::spec_bit(s_old.event_flags@, b)
                }
        }),
    ensures
        ({
            let off = crate::flags::spec_lookup(post.flag_index.pairs@, event_id)->0;
            crate::flags::spec_bit(
                post.raw.user_data_x@[character_index as int].event_flags@,
                off as int,
            ) == on
        }),
{
    let off = crate::flags::spec_lookup(pre.flag_index.pairs@, event_id)->0;
    lemma_lookup_offset_in_range(pre.flag_index, event_id, off);
}

} // verus!
