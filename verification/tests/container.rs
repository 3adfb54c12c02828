use aes::cipher::block_padding::NoPadding;
use aes::cipher::generic_array::GenericArray;
use aes::cipher::{BlockEncryptMut, KeyIvInit};
use er_save_lib::api::{SaveApi, SaveApiError};
use er_save_lib::crypto::save_key;
use er_save_lib::layout::SaveType;
use er_save_lib::save::SaveParseError;
use md5::Digest;

const HEADER_PC: usize = 112;
const HEADER_PS: usize = 108;
const PROFILE_PT: usize = 448;
const REG_PT: usize = 4096;
const CHAR_PT: usize = 1600;

fn encrypt(iv: &[u8], pt: &[u8]) -> Vec<u8> {
    let key = save_key();
    let enc = cbc::Encryptor::<aes::Aes128>::new(
        GenericArray::from_slice(&key),
        GenericArray::from_slice(iv),
    );
    enc.encrypt_padded_vec_mut::<NoPadding>(pt)
}

fn section(ps: bool, iv: &[u8], pt: &[u8]) -> Vec<u8> {
    let mut data = iv.to_vec();
    data.extend_from_slice(pt);
    let mut out = if ps {
        sha2::Sha256::digest(&data).to_vec()
    } else {
        md5::Md5::digest(&data).to_vec()
    };
    out.extend_from_slice(iv);
    out.extend_from_slice(&encrypt(iv, pt));
    out
}

fn profile_pt() -> Vec<u8> {
    let mut p = vec![0u8; PROFILE_PT];
    p[0..8].copy_from_slice(&77u64.to_le_bytes());
    p[8] = 1;
    let base = 18;
    let name = b"Tarnished";
    p[base..base + name.len()].copy_from_slice(name);
    p[base + 32..base + 36].copy_from_slice(&10u32.to_le_bytes());
    p[base + 36] = 1;
    p[base + 37] = 3;
    p[base + 38..base + 42].copy_from_slice(&500u32.to_le_bytes());
    p
}

fn char_pt(i: usize) -> Vec<u8> {
    let mut c = vec![0u8; CHAR_PT];
    if i == 0 {
        let name = b"Tarnished";
        c[0..name.len()].copy_from_slice(name);
    }
    c[32] = 1;
    c[33] = 3;
    c[36..40].copy_from_slice(&(100 + i as u32).to_le_bytes());
    c[72..76].copy_from_slice(&10u32.to_le_bytes());
    c
}

fn regulation_pt() -> Vec<u8> {
    // aggregate params blob: a directory of two tables, then their bytes
    let mut talk = Vec::new();
    talk.extend_from_slice(&2u32.to_le_bytes());
    talk.extend_from_slice(&12u32.to_le_bytes());
    talk.extend_from_slice(&36u32.to_le_bytes());
    talk.extend_from_slice(&10i32.to_le_bytes());
    talk.extend_from_slice(&111u32.to_le_bytes());
    talk.extend_from_slice(&222u32.to_le_bytes());
    talk.extend_from_slice(&(-5i32).to_le_bytes());
    talk.extend_from_slice(&333u32.to_le_bytes());
    talk.extend_from_slice(&444u32.to_le_bytes());
    talk.extend_from_slice(b"talk");
    let mut sp = Vec::new();
    sp.extend_from_slice(&1u32.to_le_bytes());
    sp.extend_from_slice(&12u32.to_le_bytes());
    sp.extend_from_slice(&24u32.to_le_bytes());
    sp.extend_from_slice(&7i32.to_le_bytes());
    sp.extend_from_slice(&55u32.to_le_bytes());
    sp.push(2);
    sp.extend_from_slice(&[0xAA, 0xAB, 0xAC]);
    let mut agg = Vec::new();
    agg.extend_from_slice(&2u32.to_le_bytes());
    let mut tname = b"talk".to_vec();
    tname.resize(16, 0);
    agg.extend_from_slice(&tname);
    agg.extend_from_slice(&52u32.to_le_bytes());
    agg.extend_from_slice(&(talk.len() as u32).to_le_bytes());
    let mut sname = b"sp_effect".to_vec();
    sname.resize(16, 0);
    agg.extend_from_slice(&sname);
    agg.extend_from_slice(&(52 + talk.len() as u32).to_le_bytes());
    agg.extend_from_slice(&(sp.len() as u32).to_le_bytes());
    agg.extend_from_slice(&talk);
    agg.extend_from_slice(&sp);
    // the archive around it: one entry named "params"
    let comp = miniz_oxide::deflate::compress_to_vec_zlib(&agg, 6);
    let mut reg = vec![0u8; REG_PT];
    reg[0..4].copy_from_slice(&1u32.to_le_bytes());
    reg[4..8].copy_from_slice(&(comp.len() as u32).to_le_bytes());
    let mut pname = b"params".to_vec();
    pname.resize(16, 0);
    reg[8..24].copy_from_slice(&pname);
    reg[24..28].copy_from_slice(&0u32.to_le_bytes());
    reg[28..32].copy_from_slice(&(agg.len() as u32).to_le_bytes());
    reg[32..32 + comp.len()].copy_from_slice(&comp);
    reg
}

fn build_save(ps: bool) -> Vec<u8> {
    let header_len = if ps { HEADER_PS } else { HEADER_PC };
    let mut out = vec![0u8; header_len];
    out.extend_from_slice(&section(ps, &[1u8; 16], &profile_pt()));
    out.extend_from_slice(&section(ps, &[2u8; 16], &regulation_pt()));
    for i in 0..10 {
        out.extend_from_slice(&section(ps, &[(3 + i) as u8; 16], &char_pt(i)));
    }
    out
}

#[test]
fn roundtrip_pc() {
    let bytes = build_save(false);
    let api = SaveApi::from_slice(&bytes).unwrap();
    assert_eq!(api.to_vec().unwrap(), bytes);
}

#[test]
fn roundtrip_console() {
    let bytes = build_save(true);
    let api = SaveApi::from_slice(&bytes).unwrap();
    assert_eq!(api.to_vec().unwrap(), bytes);
}

#[test]
fn platform_is_read_from_header_length() {
    let pc = SaveApi::from_slice(&build_save(false)).unwrap();
    assert_eq!(pc.platform(), SaveType::PC);
    let ps = SaveApi::from_slice(&build_save(true)).unwrap();
    assert_eq!(ps.platform(), SaveType::Playstation);
}

#[test]
fn steam_id_scenario() {
    let bytes = build_save(false);
    let mut api = SaveApi::from_slice(&bytes).unwrap();
    assert_eq!(api.steam_id(), 77);
    api.set_steam_id(1234567890).unwrap();
    let out = api.to_vec().unwrap();
    let reparsed = SaveApi::from_slice(&out).unwrap();
    assert_eq!(reparsed.steam_id(), 1234567890);
}

#[test]
fn editing_one_slot_leaves_other_sections_byte_identical() {
    let bytes = build_save(false);
    let mut api = SaveApi::from_slice(&bytes).unwrap();
    api.set_hp(3, 999).unwrap();
    let out = api.to_vec().unwrap();
    assert_eq!(out.len(), bytes.len());
    let chars_off = HEADER_PC + (16 + 16 + PROFILE_PT) + (16 + 16 + REG_PT);
    let sect = 16 + 16 + CHAR_PT;
    let start = chars_off + 3 * sect;
    let end = start + sect;
    assert_eq!(out[..start], bytes[..start]);
    assert_eq!(out[end..], bytes[end..]);
    assert_ne!(out[start..end], bytes[start..end]);
    let reparsed = SaveApi::from_slice(&out).unwrap();
    assert_eq!(reparsed.hp(3), 999);
}

#[test]
fn profile_mirror_consistency() {
    let mut api = SaveApi::from_slice(&build_save(false)).unwrap();
    api.set_level(0, 55).unwrap();
    api.set_gender(0, 0).unwrap();
    api.set_archetype(0, 9).unwrap();
    api.set_runes_memory(0, 4242).unwrap();
    assert_eq!(api.level(0), 55);
    assert_eq!(api.gender(0), 0);
    assert_eq!(api.archetype(0), 9);
    assert_eq!(api.runes_memory(0), 4242);
    let p = &api.raw.user_data_10.profile_summary.profiles[0];
    assert_eq!(p.level, 55);
    assert_eq!(p.gender, 0);
    assert_eq!(p.archetype, 9);
    assert_eq!(p.runes_memory, 4242);
}

#[test]
fn character_name_mirror_and_lookup() {
    let mut api = SaveApi::from_slice(&build_save(false)).unwrap();
    assert_eq!(api.character_name(0), "Tarnished");
    assert_eq!(api.character_index_from_name("Tarnish"), Some(0));
    assert_eq!(api.character_index_from_name("nobody"), None);
    api.set_character_name(0, "NewName").unwrap();
    assert_eq!(api.character_name(0), "NewName");
    assert_eq!(api.character_index_from_name("NewName"), Some(0));
    let p = &api.raw.user_data_10.profile_summary.profiles[0];
    assert_eq!(&p.character_name[..7], b"NewName");
    assert_eq!(
        api.set_character_name(0, "Ça ne va pas"),
        Err(SaveApiError::InvalidCharacterName)
    );
    let long = "x".repeat(33);
    assert_eq!(
        api.set_character_name(0, &long),
        Err(SaveApiError::InvalidCharacterName)
    );
}

#[test]
fn region_coupling_add_then_remove_restores_rest() {
    let mut api = SaveApi::from_slice(&build_save(false)).unwrap();
    assert_eq!(api.regions_count(0).unwrap(), 0);
    let rest_before = api.raw.user_data_x[0].rest.clone();
    api.add_region(0, 42).unwrap();
    assert_eq!(api.regions_count(0).unwrap(), 1);
    assert_eq!(api.regions(0).unwrap(), &vec![42u32]);
    assert_eq!(api.raw.user_data_x[0].rest.len(), rest_before.len() - 4);
    // adding the same id again is a no-op
    api.add_region(0, 42).unwrap();
    assert_eq!(api.regions_count(0).unwrap(), 1);
    api.remove_region(0, 42).unwrap();
    assert_eq!(api.regions_count(0).unwrap(), 0);
    assert_eq!(api.raw.user_data_x[0].rest, rest_before);
    // the record's total length is unchanged through the whole sequence
    let out = api.to_vec().unwrap();
    assert_eq!(out.len(), build_save(false).len());
}

#[test]
fn region_edits_survive_a_save_cycle() {
    let mut api = SaveApi::from_slice(&build_save(false)).unwrap();
    api.add_region(2, 7).unwrap();
    api.add_region(2, 9).unwrap();
    let out = api.to_vec().unwrap();
    let reparsed = SaveApi::from_slice(&out).unwrap();
    assert_eq!(reparsed.regions(2).unwrap(), &vec![7u32, 9u32]);
    assert_eq!(reparsed.regions_count(2).unwrap(), 2);
}

#[test]
fn gesture_list_resizes_rest() {
    let mut api = SaveApi::from_slice(&build_save(false)).unwrap();
    let rest_before = api.raw.user_data_x[0].rest.len();
    api.set_equipped_gestures(0, vec![1, 2, 3]).unwrap();
    assert_eq!(api.equipped_gestures(0), &vec![1u32, 2, 3]);
    assert_eq!(api.raw.user_data_x[0].rest.len(), rest_before - 12);
    let out = api.to_vec().unwrap();
    let reparsed = SaveApi::from_slice(&out).unwrap();
    assert_eq!(reparsed.equipped_gestures(0), &vec![1u32, 2, 3]);
    // a list that cannot fit the record is rejected unchanged
    let mut big = SaveApi::from_slice(&build_save(false)).unwrap();
    let too_many = vec![5u32; 500];
    assert_eq!(
        big.set_equipped_gestures(0, too_many),
        Err(SaveApiError::RecordCapacityExceeded(0))
    );
    assert_eq!(big.equipped_gestures(0).len(), 0);
}

#[test]
fn event_flags_scenario() {
    let mut api = SaveApi::from_slice(&build_save(false)).unwrap();
    // untouched bit reads false
    assert_eq!(api.get_event_flag(6223, 0), Ok(false));
    api.set_event_flag(6223, 0, true).unwrap();
    assert_eq!(api.get_event_flag(6223, 0), Ok(true));
    // neighbours are untouched
    assert_eq!(api.get_event_flag(60, 0), Ok(false));
    assert_eq!(api.get_event_flag(6223, 1), Ok(false));
    // clearing works
    api.set_event_flag(6223, 0, false).unwrap();
    assert_eq!(api.get_event_flag(6223, 0), Ok(false));
    // unknown id is a recoverable lookup error
    assert_eq!(
        api.get_event_flag(999_999, 0),
        Err(SaveApiError::EventIdNotFound(999_999))
    );
    // out-of-range slot is a bounds error
    assert_eq!(
        api.get_event_flag(6223, 10),
        Err(SaveApiError::CharacterIndexOutOfBounds(10))
    );
    assert_eq!(
        api.set_event_flag(6223, 10, true),
        Err(SaveApiError::CharacterIndexOutOfBounds(10))
    );
}

#[test]
fn event_flags_survive_a_save_cycle() {
    let mut api = SaveApi::from_slice(&build_save(false)).unwrap();
    api.set_event_flag(1007, 4, true).unwrap();
    let out = api.to_vec().unwrap();
    let reparsed = SaveApi::from_slice(&out).unwrap();
    assert_eq!(reparsed.get_event_flag(1007, 4), Ok(true));
    assert_eq!(reparsed.get_event_flag(1007, 3), Ok(false));
}

#[test]
fn active_characters_reads_activity_bytes() {
    let api = SaveApi::from_slice(&build_save(false)).unwrap();
    let active = api.active_characters();
    assert!(active[0]);
    for i in 1..10 {
        assert!(!active[i]);
    }
}

#[test]
fn stat_accessors() {
    let mut api = SaveApi::from_slice(&build_save(false)).unwrap();
    assert_eq!(api.hp(0), 100);
    assert_eq!(api.hp(7), 107);
    assert_eq!(api.level(0), 10);
    api.set_vigor(1, 40).unwrap();
    api.set_runes(1, 31337).unwrap();
    assert_eq!(api.vigor(1), 40);
    assert_eq!(api.runes(1), 31337);
}

#[test]
fn wrong_length_is_a_fatal_parse_error() {
    let r = SaveApi::from_slice(&[0u8; 1234]);
    match r {
        Err(SaveApiError::SaveParserError(SaveParseError::InvalidLength(n))) => {
            assert_eq!(n, 1234)
        },
        _ => panic!("expected InvalidLength"),
    }
}

#[test]
fn malformed_character_record_is_fatal_and_names_the_slot() {
    // corrupt slot 5's gesture count to an impossible value
    let mut pt = char_pt(5);
    pt[628..632].copy_from_slice(&0xFFFF_FFFFu32.to_le_bytes());
    let mut bytes = Vec::new();
    bytes.extend_from_slice(&vec![0u8; HEADER_PC]);
    bytes.extend_from_slice(&section(false, &[1u8; 16], &profile_pt()));
    bytes.extend_from_slice(&section(false, &[2u8; 16], &regulation_pt()));
    for i in 0..10 {
        if i == 5 {
            bytes.extend_from_slice(&section(false, &[8u8; 16], &pt));
        } else {
            bytes.extend_from_slice(&section(false, &[(3 + i) as u8; 16], &char_pt(i)));
        }
    }
    let r = SaveApi::from_slice(&bytes);
    match r {
        Err(SaveApiError::SaveParserError(SaveParseError::MalformedCharacterRecord(i))) => {
            assert_eq!(i, 5)
        },
        _ => panic!("expected MalformedCharacterRecord"),
    }
}

#[test]
fn checksum_mismatch_is_soft_and_flagged() {
    let mut bytes = build_save(false);
    // flip one ciphertext byte of character section 2
    let chars_off = HEADER_PC + (16 + 16 + PROFILE_PT) + (16 + 16 + REG_PT);
    let sect = 16 + 16 + CHAR_PT;
    let pos = chars_off + 2 * sect + 16 + 16 + 700;
    bytes[pos] ^= 0xFF;
    let api = SaveApi::from_slice(&bytes).unwrap();
    assert!(!api.raw.user_data_x[2].is_valid);
    assert!(api.raw.user_data_x[1].is_valid);
    assert!(api.raw.user_data_10.is_valid);
    // and the un-edited container still round-trips byte-exactly
    assert_eq!(api.to_vec().unwrap(), bytes);
}

#[test]
fn region_capacity_is_bounded() {
    let mut api = SaveApi::from_slice(&build_save(false)).unwrap();
    // the variable area holds 241 ids; the 242nd cannot fit
    for id in 0..241u32 {
        api.add_region(0, id).unwrap();
    }
    assert_eq!(api.regions_count(0).unwrap(), 241);
    assert_eq!(api.raw.user_data_x[0].rest.len(), 0);
    assert_eq!(
        api.add_region(0, 1000),
        Err(SaveApiError::RecordCapacityExceeded(0))
    );
    assert_eq!(api.regions_count(0).unwrap(), 241);
    // and the record still serializes at its fixed size
    let out = api.to_vec().unwrap();
    let reparsed = SaveApi::from_slice(&out).unwrap();
    assert_eq!(reparsed.regions_count(0).unwrap(), 241);
}

#[test]
fn new_wraps_a_parsed_container() {
    let bytes = build_save(false);
    let api = SaveApi::from_slice(&bytes).unwrap();
    let rewrapped = SaveApi::new(api.raw);
    assert_eq!(rewrapped.to_vec().unwrap(), bytes);
}
