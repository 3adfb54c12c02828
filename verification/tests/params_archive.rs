use aes::cipher::block_padding::NoPadding;
use aes::cipher::generic_array::GenericArray;
use aes::cipher::{BlockEncryptMut, KeyIvInit};
use er_save_lib::api::{SaveApi, SaveApiError};
use er_save_lib::crypto::save_key;
use er_save_lib::params::{
    decode_table, encode_table, get_row_field, set_row_field, ParamKind, ParamParseError,
};
use er_save_lib::regulation::{repack, unpack, RegulationParseError};
use md5::Digest;

const HEADER_PC: usize = 112;
const PROFILE_PT: usize = 448;
const REG_PT: usize = 4096;
const CHAR_PT: usize = 1600;

fn encrypt(iv: &[u8], pt: &[u8]) -> Vec<u8> {
    let key = save_key();
    let enc = cbc::Encryptor::<aes::Aes128>::new(
        GenericArray::from_slice(&key),
        GenericArray::from_slice(iv),
    );
    enc.encrypt_padded_vec_mut::<NoPadding>(pt)
}

fn section(iv: &[u8], pt: &[u8]) -> Vec<u8> {
    let mut data = iv.to_vec();
    data.extend_from_slice(pt);
    let mut out = md5::Md5::digest(&data).to_vec();
    out.extend_from_slice(iv);
    out.extend_from_slice(&encrypt(iv, pt));
    out
}

fn talk_table() -> Vec<u8> {
    let mut talk = Vec::new();
    talk.extend_from_slice(&2u32.to_le_bytes());
    talk.extend_from_slice(&12u32.to_le_bytes());
    talk.extend_from_slice(&36u32.to_le_bytes());
    talk.extend_from_slice(&10i32.to_le_bytes());
    talk.extend_from_slice(&111u32.to_le_bytes());
    talk.extend_from_slice(&222u32.to_le_bytes());
    talk.extend_from_slice(&(-5i32).to_le_bytes());
    talk.extend_from_slice(&333u32.to_le_bytes());
    talk.extend_from_slice(&444u32.to_le_bytes());
    talk.extend_from_slice(b"talk");
    talk
}

fn sp_table() -> Vec<u8> {
    let mut sp = Vec::new();
    sp.extend_from_slice(&1u32.to_le_bytes());
    sp.extend_from_slice(&12u32.to_le_bytes());
    sp.extend_from_slice(&24u32.to_le_bytes());
    sp.extend_from_slice(&7i32.to_le_bytes());
    sp.extend_from_slice(&55u32.to_le_bytes());
    sp.push(2);
    sp.extend_from_slice(&[0xAA, 0xAB, 0xAC]);
    sp
}

fn aggregate() -> Vec<u8> {
    let talk = talk_table();
    let sp = sp_table();
    let mut agg = Vec::new();
    agg.extend_from_slice(&2u32.to_le_bytes());
    let mut tname = b"talk".to_vec();
    tname.resize(16, 0);
    agg.extend_from_slice(&tname);
    agg.extend_from_slice(&52u32.to_le_bytes());
    agg.extend_from_slice(&(talk.len() as u32).to_le_bytes());
    let mut sname = b"sp_effect".to_vec();
    sname.resize(16, 0);
    agg.extend_from_slice(&sname);
    agg.extend_from_slice(&(52 + talk.len() as u32).to_le_bytes());
    agg.extend_from_slice(&(sp.len() as u32).to_le_bytes());
    agg.extend_from_slice(&talk);
    agg.extend_from_slice(&sp);
    agg
}

fn regulation_pt() -> Vec<u8> {
    let agg = aggregate();
    let comp = miniz_oxide::deflate::compress_to_vec_zlib(&agg, 6);
    let mut reg = vec![0u8; REG_PT];
    reg[0..4].copy_from_slice(&1u32.to_le_bytes());
    reg[4..8].copy_from_slice(&(comp.len() as u32).to_le_bytes());
    let mut pname = b"params".to_vec();
    pname.resize(16, 0);
    reg[8..24].copy_from_slice(&pname);
    reg[24..28].copy_from_slice(&0u32.to_le_bytes());
    reg[28..32].copy_from_slice(&(agg.len() as u32).to_le_bytes());
    reg[32..32 + comp.len()].copy_from_slice(&comp);
    reg
}

fn build_save() -> Vec<u8> {
    let mut out = vec![0u8; HEADER_PC];
    out.extend_from_slice(&section(&[1u8; 16], &vec![0u8; PROFILE_PT]));
    out.extend_from_slice(&section(&[2u8; 16], &regulation_pt()));
    for i in 0..10 {
        out.extend_from_slice(&section(&[(3 + i) as u8; 16], &vec![0u8; CHAR_PT]));
    }
    out
}

#[test]
fn get_param_decodes_rows() {
    let api = SaveApi::from_slice(&build_save()).unwrap();
    let talk = api.get_param(ParamKind::Talk).unwrap();
    assert_eq!(talk.rows.len(), 2);
    assert_eq!(talk.stride, 12);
    assert_eq!(talk.rows[0].id, 10);
    assert_eq!(talk.rows[1].id, -5);
    assert_eq!(get_row_field(&talk.rows[0], 4, 4), 111);
    assert_eq!(get_row_field(&talk.rows[0], 8, 4), 222);
    assert_eq!(get_row_field(&talk.rows[1], 4, 4), 333);
    let sp = api.get_param(ParamKind::SpEffect).unwrap();
    assert_eq!(sp.rows.len(), 1);
    assert_eq!(sp.rows[0].id, 7);
    assert_eq!(get_row_field(&sp.rows[0], 4, 4), 55);
    assert_eq!(get_row_field(&sp.rows[0], 8, 1), 2);
    // a schema whose table is absent resolves like a missing id
    match api.get_param(ParamKind::EquipWeapon) {
        Err(SaveApiError::ParamError(ParamParseError::TableNotFound)) => {},
        _ => panic!("expected TableNotFound"),
    }
}

#[test]
fn param_decode_encode_is_byte_identical() {
    let talk = talk_table();
    let p = decode_table(&talk).unwrap();
    assert_eq!(encode_table(&p), talk);
    let sp = sp_table();
    let q = decode_table(&sp).unwrap();
    assert_eq!(encode_table(&q), sp);
}

#[test]
fn editing_one_field_changes_only_its_window() {
    let talk = talk_table();
    let mut p = decode_table(&talk).unwrap();
    let before = p.rows[0].data.clone();
    assert!(set_row_field(&mut p.rows[0], 4, 4, 999));
    let after = &p.rows[0].data;
    assert_eq!(get_row_field(&p.rows[0], 4, 4), 999);
    assert_eq!(before[0..4], after[0..4]);
    assert_eq!(before[8..12], after[8..12]);
    // reserved bytes of the other table's row are untouched by decode
    let q = decode_table(&sp_table()).unwrap();
    assert_eq!(&q.rows[0].data[9..12], &[0xAA, 0xAB, 0xAC]);
    // an over-wide value for a narrow field is rejected unchanged
    let mut r = decode_table(&sp_table()).unwrap();
    assert!(!set_row_field(&mut r.rows[0], 8, 1, 300));
    assert_eq!(r.rows[0].data, q.rows[0].data);
}

#[test]
fn get_param_bytes_map_lists_every_table() {
    let api = SaveApi::from_slice(&build_save()).unwrap();
    let map = api.get_param_bytes_map().unwrap();
    assert_eq!(map.len(), 2);
    assert_eq!(map[0].0, "talk");
    assert_eq!(map[0].1, talk_table());
    assert_eq!(map[1].0, "sp_effect");
    assert_eq!(map[1].1, sp_table());
}

#[test]
fn unpack_yields_named_entries() {
    let reg = regulation_pt();
    let archive = unpack(&reg).unwrap();
    assert_eq!(archive.entries.len(), 1);
    assert_eq!(&archive.entries[0].name[..6], b"params");
    assert_eq!(archive.entries[0].data, aggregate());
}

#[test]
fn repack_reproduces_the_framing() {
    let reg = regulation_pt();
    let archive = unpack(&reg).unwrap();
    let repacked = repack(&archive).unwrap();
    // same entries, same compression level: byte-identical framing
    assert_eq!(repacked, reg);
    let again = unpack(&repacked).unwrap();
    assert_eq!(again.entries.len(), 1);
    assert_eq!(again.entries[0].data, aggregate());
}

#[test]
fn truncated_archive_is_fatal() {
    let mut reg = regulation_pt();
    // declare more entries than the section can hold
    reg[0..4].copy_from_slice(&0xFFFFu32.to_le_bytes());
    match unpack(&reg) {
        Err(RegulationParseError::TruncatedEntryTable) => {},
        _ => panic!("expected TruncatedEntryTable"),
    }
    // and a corrupted stream fails to decompress
    let mut reg2 = regulation_pt();
    reg2[40] ^= 0x5A;
    reg2[41] ^= 0x5A;
    assert!(matches!(
        unpack(&reg2),
        Err(RegulationParseError::Decompression) | Err(RegulationParseError::EntryOutOfBounds)
    ));
}

#[test]
fn missing_params_entry_is_reported() {
    // an archive whose only entry is not named "params"
    let agg = aggregate();
    let comp = miniz_oxide::deflate::compress_to_vec_zlib(&agg, 6);
    let mut reg = vec![0u8; REG_PT];
    reg[0..4].copy_from_slice(&1u32.to_le_bytes());
    reg[4..8].copy_from_slice(&(comp.len() as u32).to_le_bytes());
    let mut oname = b"other".to_vec();
    oname.resize(16, 0);
    reg[8..24].copy_from_slice(&oname);
    reg[24..28].copy_from_slice(&0u32.to_le_bytes());
    reg[28..32].copy_from_slice(&(agg.len() as u32).to_le_bytes());
    reg[32..32 + comp.len()].copy_from_slice(&comp);
    let mut out = vec![0u8; HEADER_PC];
    out.extend_from_slice(&section(&[1u8; 16], &vec![0u8; PROFILE_PT]));
    out.extend_from_slice(&section(&[2u8; 16], &reg));
    for i in 0..10 {
        out.extend_from_slice(&section(&[(3 + i) as u8; 16], &vec![0u8; CHAR_PT]));
    }
    let api = SaveApi::from_slice(&out).unwrap();
    match api.get_param(ParamKind::Talk) {
        Err(SaveApiError::RegulationParseError(RegulationParseError::MissingParamEntry)) => {},
        _ => panic!("expected MissingParamEntry"),
    }
}

#[test]
fn decode_table_rejects_malformed_headers() {
    // too short for a header
    match decode_table(&vec![0u8; 5]) {
        Err(ParamParseError::Truncated) => {},
        _ => panic!("expected Truncated"),
    }
    // a stride that cannot hold the id field
    let mut t = talk_table();
    t[4..8].copy_from_slice(&2u32.to_le_bytes());
    match decode_table(&t) {
        Err(ParamParseError::BadStride) => {},
        _ => panic!("expected BadStride"),
    }
    // more rows than the table holds
    let mut t = talk_table();
    t[0..4].copy_from_slice(&1000u32.to_le_bytes());
    match decode_table(&t) {
        Err(ParamParseError::Truncated) => {},
        _ => panic!("expected Truncated"),
    }
    // a name-block offset that does not sit right after the rows
    let mut t = talk_table();
    t[8..12].copy_from_slice(&35u32.to_le_bytes());
    match decode_table(&t) {
        Err(ParamParseError::BadNameBlockOffset) => {},
        _ => panic!("expected BadNameBlockOffset"),
    }
}

#[test]
fn non_utf8_table_name_is_reported() {
    // a directory whose single table name is not valid UTF-8
    let mut agg = Vec::new();
    agg.extend_from_slice(&1u32.to_le_bytes());
    let mut bad = vec![0xFFu8, 0xFE];
    bad.resize(16, 0);
    agg.extend_from_slice(&bad);
    agg.extend_from_slice(&28u32.to_le_bytes());
    agg.extend_from_slice(&0u32.to_le_bytes());
    let comp = miniz_oxide::deflate::compress_to_vec_zlib(&agg, 6);
    let mut reg = vec![0u8; REG_PT];
    reg[0..4].copy_from_slice(&1u32.to_le_bytes());
    reg[4..8].copy_from_slice(&(comp.len() as u32).to_le_bytes());
    let mut pname = b"params".to_vec();
    pname.resize(16, 0);
    reg[8..24].copy_from_slice(&pname);
    reg[24..28].copy_from_slice(&0u32.to_le_bytes());
    reg[28..32].copy_from_slice(&(agg.len() as u32).to_le_bytes());
    reg[32..32 + comp.len()].copy_from_slice(&comp);
    let mut out = vec![0u8; HEADER_PC];
    out.extend_from_slice(&section(&[1u8; 16], &vec![0u8; PROFILE_PT]));
    out.extend_from_slice(&section(&[2u8; 16], &reg));
    for i in 0..10 {
        out.extend_from_slice(&section(&[(3 + i) as u8; 16], &vec![0u8; CHAR_PT]));
    }
    let api = SaveApi::from_slice(&out).unwrap();
    match api.get_param_bytes_map() {
        Err(SaveApiError::ParamError(ParamParseError::InvalidTableName)) => {},
        _ => panic!("expected InvalidTableName"),
    }
}
