//! Param-table codec: fixed-stride row tables keyed by a signed 32-bit row
//! id, decoded from the regulation archive's aggregate param entry.
//!
//! A table is a header (row count, row stride, name-block offset), one
//! record per row, and a trailing name block.  Rows are decoded strictly by
//! byte windows: bytes a schema does not describe are preserved verbatim,
//! and a decoded table re-encodes to exactly its source bytes.

use crate::layout::ENTRY_NAME_LEN;
use crate::wire::{push_bytes, push_u32, read_u32, take_bytes, u32_at};
use vstd::bytes::{spec_u16_to_le_bytes, spec_u32_to_le_bytes};
use vstd::string::{StringExecFns, StringSliceAdditionalSpecFns};
use vstd::prelude::*;

verus! {

broadcast use vstd::string::group_string_axioms;

/// Signed reading of a 32-bit little-endian value.
pub open spec fn spec_i32_of_u32(v: u32) -> i32 {
    if v < 0x8000_0000 {
        v as i32
    } else {
        (v - 0x1_0000_0000) as i32
    }
}

/// Signed reading of a 32-bit little-endian value.
pub fn i32_of_u32(v: u32) -> (r: i32)
    ensures
        r == spec_i32_of_u32(v),
{
    if v < 0x8000_0000 {
        v as i32
    } else {
        (((v as i64) - 0x1_0000_0000i64) as i32)
    }
}

/// One decoded row: its id and its full record bytes (id field included).
pub struct ParamRow {
    pub id: i32,
    pub data: Vec<u8>,
}

/// One decoded param table: rows in source order, the row stride, and the
/// trailing name block.
pub struct Param {
    pub rows: Vec<ParamRow>,
    pub stride: u32,
    pub name_block: Vec<u8>,
}

/// Errors of the param codec.
#[derive(Debug, PartialEq, Eq, Structural, Clone, Copy)]
pub enum ParamParseError {
    /// The table is shorter than its header, or the rows it declares do
    /// not fit.
    Truncated,
    /// The declared stride cannot hold the row-id field.
    BadStride,
    /// The declared name-block offset does not sit right after the rows.
    BadNameBlockOffset,
    /// The aggregate entry's directory is inconsistent.
    BadDirectory,
    /// No table of the requested name exists in the archive.
    TableNotFound,
    /// A table name in the directory is not valid UTF-8.
    InvalidTableName,
}

impl ParamRow {
    pub open spec fn wf(self, stride: u32) -> bool {
        &&& self.data@.len() == stride
        &&& self.id == spec_i32_of_u32(u32_at(self.data@, 0))
    }
}

impl Param {
    pub open spec fn wf(self) -> bool {
        &&& self.stride >= 4
        &&& forall|k: int| 0 <= k < self.rows@.len() ==> (#[trigger] self.rows@[k]).wf(self.stride)
        &&& self.rows@.len() < 0x4000_0000
        &&& 12 + self.rows@.len() * self.stride + self.name_block@.len() < 0x1_0000_0000
    }
}

/// The record bytes of every row, concatenated.
pub open spec fn flat_rows(rows: Seq<ParamRow>) -> Seq<u8>
    decreases rows.len(),
{
    if rows.len() == 0 {
        Seq::empty()
    } else {
        flat_rows(rows.drop_last()) + rows.last().data@
    }
}

pub proof fn lemma_flat_rows_len(rows: Seq<ParamRow>, stride: u32)
    requires
        forall|k: int| 0 <= k < rows.len() ==> (#[trigger] rows[k]).wf(stride),
    ensures
        flat_rows(rows).len() == rows.len() * stride,
    decreases rows.len(),
{
    if rows.len() > 0 {
        lemma_flat_rows_len(rows.drop_last(), stride);
        assert((rows.len() - 1) * stride + stride == rows.len() * stride) by (nonlinear_arith);
    } else {
        assert(rows.len() * stride == 0) by (nonlinear_arith)
            requires
                rows.len() == 0,
        ;
    }
}

pub proof fn lemma_flat_rows_push(rows: Seq<ParamRow>, row: ParamRow)
    ensures
        flat_rows(rows.push(row)) == flat_rows(rows) + row.data@,
{
    assert(rows.push(row).drop_last() =~= rows);
    assert(rows.push(row).last() == row);
}

/// The bytes a decoded table serializes to: its header, every row's
/// record, and the name block.
pub open spec fn spec_encode_table(p: Param) -> Seq<u8> {
    spec_u32_to_le_bytes(p.rows@.len() as u32) + spec_u32_to_le_bytes(p.stride)
        + spec_u32_to_le_bytes((12 + p.rows@.len() * p.stride) as u32) + flat_rows(p.rows@)
        + p.name_block@
}

/// Decode one param table.
///
/// On success the table is well-formed and re-encodes to exactly the
/// input: `spec_encode_table` of the result is the input bytes.
pub fn decode_table(bytes: &Vec<u8>) -> (r: Result<Param, ParamParseError>)
    ensures
        match r {
            Ok(p) => {
                &&& p.wf()
                &&& bytes@.len() >= 12
                &&& p.rows@.len() == u32_at(bytes@, 0)
                &&& p.stride == u32_at(bytes@, 4)
                &&& forall|k: int|
                    0 <= k < p.rows@.len() ==> (#[trigger] p.rows@[k]).data@ == bytes@.subrange(
                        12 + k * p.stride,
                        12 + k * p.stride + p.stride,
                    )
                &&& spec_encode_table(p) == bytes@
            },
            Err(ParamParseError::Truncated) => bytes@.len() < 12 || bytes@.len()
                >= 0x1_0000_0000 || 12 + u32_at(bytes@, 0) * u32_at(bytes@, 4) > bytes@.len(),
            Err(ParamParseError::BadStride) => u32_at(bytes@, 4) < 4,
            Err(ParamParseError::BadNameBlockOffset) => u32_at(bytes@, 8) != 12 + u32_at(
                bytes@,
                0,
            ) * u32_at(bytes@, 4),
            Err(_) => false,
        },
{
    let n = bytes.len();
    if n < 12 || (n as u64) >= 0x1_0000_0000u64 {
        return Err(ParamParseError::Truncated);
    }
    let count32 = read_u32(bytes, 0);
    let stride32 = read_u32(bytes, 4);
    let names_off32 = read_u32(bytes, 8);
    if stride32 < 4 {
        return Err(ParamParseError::BadStride);
    }
    let count = count32 as usize;
    let stride = stride32 as usize;
    let q = (n - 12) / stride;
    proof {
        vstd::arithmetic::div_mod::lemma_fundamental_div_mod((n - 12) as int, stride as int);
        vstd::arithmetic::div_mod::lemma_mod_bound((n - 12) as int, stride as int);
        assert(u32_at(bytes@, 0) * u32_at(bytes@, 4) == (count as int) * (stride as int));
    }
    if count > q {
        proof {
            assert((q + 1) * (stride as int) <= (count as int) * (stride as int))
                by (nonlinear_arith)
                requires
                    q + 1 <= count,
                    stride >= 0,
            ;
            assert((q + 1) * (stride as int) == q * (stride as int) + stride)
                by (nonlinear_arith);
            assert((stride as int) * q == q * (stride as int)) by (nonlinear_arith);
        }
        return Err(ParamParseError::Truncated);
    }
    proof {
        assert((count as int) * (stride as int) <= q * (stride as int)) by (nonlinear_arith)
            requires
                count <= q,
                stride >= 0,
        ;
        assert((count as int) * 4 <= (count as int) * (stride as int)) by (nonlinear_arith)
            requires
                stride >= 4,
                count >= 0,
        ;
        assert((stride as int) * q == q * (stride as int)) by (nonlinear_arith);
        assert(q * (stride as int) <= (n - 12) as int);
        assert(12 + (count as int) * (stride as int) <= n as int);
    }
    let rows_end = 12 + count * stride;
    if names_off32 != (rows_end as u32) {
        return Err(ParamParseError::BadNameBlockOffset);
    }
    let mut rows: Vec<ParamRow> = Vec::new();
    let mut k: usize = 0;
    while k < count
        invariant
            k <= count,
            stride == stride32 as int,
            stride >= 4,
            n == bytes@.len(),
            12 + count * stride <= n,
            rows@.len() == k,
            forall|j: int| 0 <= j < k ==> (#[trigger] rows@[j]).wf(stride32),
            forall|j: int|
                0 <= j < k ==> (#[trigger] rows@[j]).data@ == bytes@.subrange(
                    12 + j * stride,
                    12 + j * stride + stride,
                ),
            flat_rows(rows@) == bytes@.subrange(12, 12 + k * stride),
        decreases count - k,
    {
        proof {
            assert((k + 1) * stride == k * stride + stride) by (nonlinear_arith);
            assert((k + 1) * stride <= count * stride) by (nonlinear_arith)
                requires
                    k + 1 <= count,
                    stride >= 0,
            ;
        }
        let base = 12 + k * stride;
        let data = take_bytes(bytes, base, stride);
        let id = i32_of_u32(read_u32(bytes, base));
        proof {
            assert(data@.subrange(0, 4) =~= bytes@.subrange(base as int, base + 4));
        }
        let ghost prev = rows@;
        rows.push(ParamRow { id, data });
        proof {
            lemma_flat_rows_push(prev, rows@.last());
            assert(bytes@.subrange(12, 12 + k * stride) + bytes@.subrange(
                12 + k * stride,
                12 + (k + 1) * stride,
            ) =~= bytes@.subrange(12, 12 + (k + 1) * stride));
        }
        k = k + 1;
    }
    let name_block = take_bytes(bytes, rows_end, n - rows_end);
    let p = Param { rows, stride: stride32, name_block };
    proof {
        vstd::bytes::lemma_auto_spec_u32_to_from_le_bytes();
        assert(spec_u32_to_le_bytes(p.rows@.len() as u32) == bytes@.subrange(0, 4));
        assert(spec_u32_to_le_bytes(p.stride) == bytes@.subrange(4, 8));
        assert(spec_u32_to_le_bytes((12 + p.rows@.len() * p.stride) as u32) == bytes@.subrange(
            8,
            12,
        ));
        assert(spec_encode_table(p) =~= bytes@);
    }
    Ok(p)
}

/// Re-encode a decoded table: header, rows in order, name block.
pub fn encode_table(p: &Param) -> (r: Vec<u8>)
    requires
        p.wf(),
    ensures
        r@ == spec_encode_table(*p),
{
    proof {
        lemma_flat_rows_len(p.rows@, p.stride);
    }
    let mut out: Vec<u8> = Vec::new();
    push_u32(&mut out, p.rows.len() as u32);
    push_u32(&mut out, p.stride);
    push_u32(&mut out, (12 + p.rows.len() * (p.stride as usize)) as u32);
    let ghost head = out@;
    let mut k: usize = 0;
    while k < p.rows.len()
        invariant
            k <= p.rows@.len(),
            out@ == head + flat_rows(p.rows@.subrange(0, k as int)),
        decreases p.rows@.len() - k,
    {
        push_bytes(&mut out, &p.rows[k].data);
        proof {
            assert(p.rows@.subrange(0, k + 1 as int) =~= p.rows@.subrange(0, k as int).push(
                p.rows@[k as int],
            ));
            lemma_flat_rows_push(p.rows@.subrange(0, k as int), p.rows@[k as int]);
        }
        k = k + 1;
    }
    proof {
        assert(p.rows@.subrange(0, p.rows@.len() as int) =~= p.rows@);
    }
    push_bytes(&mut out, &p.name_block);
    proof {
        assert(out@ =~= spec_encode_table(*p));
    }
    out
}

/// Read the `width`-byte little-endian field at `offset` of a row.
pub fn get_row_field(row: &ParamRow, offset: usize, width: usize) -> (r: u32)
    requires
        offset + width <= row.data@.len(),
        width == 1 || width == 2 || width == 4,
    ensures
        width == 1 ==> r == row.data@[offset as int],
        width == 2 ==> r == row.data@[offset as int] + 0x100 * row.data@[offset + 1],
        width == 4 ==> r == u32_at(row.data@, offset as int),
{
    let len = row.data.len();
    if width == 1 {
        row.data[offset] as u32
    } else if width == 2 {
        (row.data[offset] as u32) + 0x100 * (row.data[offset + 1] as u32)
    } else {
        read_u32(&row.data, offset)
    }
}

/// Overwrite the `width`-byte little-endian field at `offset` of a row.
/// Only that byte window changes; the id field (the first four bytes)
/// cannot be addressed.
pub fn set_row_field(row: &mut ParamRow, offset: usize, width: usize, value: u32) -> (r: bool)
    requires
        4 <= offset,
        offset + width <= old(row).data@.len(),
        width == 1 || width == 2 || width == 4,
    ensures
        r == (width == 1 && value < 0x100 || width == 2 && value < 0x1_0000 || width == 4),
        r ==> final(row).data@ == old(row).data@.subrange(0, offset as int) + field_bytes(
            width as int,
            value,
        ) + old(row).data@.subrange(offset + width, old(row).data@.len() as int),
        !r ==> *final(row) == *old(row),
        final(row).id == old(row).id,
        final(row).data@.len() == old(row).data@.len(),
{
    let len = row.data.len();
    if width == 1 {
        if value >= 0x100 {
            return false;
        }
        row.data[offset] = value as u8;
        proof {
            assert(final(row).data@ =~= old(row).data@.subrange(0, offset as int) + field_bytes(
                1,
                value,
            ) + old(row).data@.subrange(offset + 1, old(row).data@.len() as int));
        }
        true
    } else if width == 2 {
        if value >= 0x1_0000 {
            return false;
        }
        let b = vstd::bytes::u16_to_le_bytes(value as u16);
        row.data[offset] = b[0];
        row.data[offset + 1] = b[1];
        proof {
            vstd::bytes::lemma_auto_spec_u16_to_from_le_bytes();
            assert(final(row).data@ =~= old(row).data@.subrange(0, offset as int) + field_bytes(
                2,
                value,
            ) + old(row).data@.subrange(offset + 2, old(row).data@.len() as int));
        }
        true
    } else {
        let mut b = crate::wire::u32_to_le_vec(value);
        row.data[offset] = b[0];
        row.data[offset + 1] = b[1];
        row.data[offset + 2] = b[2];
        row.data[offset + 3] = b[3];
        proof {
            assert(final(row).data@ =~= old(row).data@.subrange(0, offset as int) + field_bytes(
                4,
                value,
            ) + old(row).data@.subrange(offset + 4, old(row).data@.len() as int));
        }
        true
    }
}

/// The little-endian bytes of a field value at the given width.
pub open spec fn field_bytes(width: int, value: u32) -> Seq<u8> {
    if width == 1 {
        seq![value as u8]
    } else if width == 2 {
        spec_u16_to_le_bytes(value as u16)
    } else {
        spec_u32_to_le_bytes(value)
    }
}


/// Name of a directory entry of the aggregate param blob.
pub open spec fn dir_entry_name(agg: Seq<u8>, k: int) -> Seq<u8> {
    agg.subrange(4 + 24 * k, 4 + 24 * k + ENTRY_NAME_LEN as int)
}

/// The directory header and table fit in the blob.
pub open spec fn dir_ok(agg: Seq<u8>) -> bool {
    &&& agg.len() >= 4
    &&& 4 + 24 * (u32_at(agg, 0) as int) <= agg.len()
}

/// The byte window directory entry `k` points at lies inside the blob.
pub open spec fn dir_window_ok(agg: Seq<u8>, k: int) -> bool {
    let off = u32_at(agg, 4 + 24 * k + ENTRY_NAME_LEN as int) as int;
    let len = u32_at(agg, 4 + 24 * k + ENTRY_NAME_LEN + 4) as int;
    off + len <= agg.len()
}

/// The byte window directory entry `k` points at.
pub open spec fn dir_slice(agg: Seq<u8>, k: int) -> Seq<u8> {
    let off = u32_at(agg, 4 + 24 * k + ENTRY_NAME_LEN as int) as int;
    let len = u32_at(agg, 4 + 24 * k + ENTRY_NAME_LEN + 4) as int;
    agg.subrange(off, off + len)
}

/// Find the first directory entry of the aggregate blob with the given
/// (zero-padded) name.
///
/// The directory is a count followed by records of name (16 bytes),
/// offset and length; the tables follow.
pub fn dir_find(agg: &Vec<u8>, name: &Vec<u8>) -> (r: Result<usize, ParamParseError>)
    requires
        name@.len() == ENTRY_NAME_LEN,
    ensures
        match r {
            Ok(k) => {
                &&& dir_ok(agg@)
                &&& k < u32_at(agg@, 0)
                &&& dir_entry_name(agg@, k as int) == name@
                &&& forall|j: int| 0 <= j < k ==> dir_entry_name(agg@, j) != name@
                &&& dir_window_ok(agg@, k as int)
            },
            Err(ParamParseError::BadDirectory) => !dir_ok(agg@) || exists|k: int|
                {
                    &&& 0 <= k < u32_at(agg@, 0)
                    &&& #[trigger] dir_entry_name(agg@, k) == name@
                    &&& !dir_window_ok(agg@, k)
                },
            Err(ParamParseError::TableNotFound) => dir_ok(agg@) && forall|k: int|
                0 <= k < u32_at(agg@, 0) ==> dir_entry_name(agg@, k) != name@,
            Err(_) => false,
        },
{
    let n = agg.len();
    if n < 4 {
        return Err(ParamParseError::BadDirectory);
    }
    let count32 = read_u32(agg, 0);
    if 4u64 + 24u64 * (count32 as u64) > (n as u64) {
        return Err(ParamParseError::BadDirectory);
    }
    let count = count32 as usize;
    let mut k: usize = 0;
    while k < count
        invariant
            k <= count,
            count == u32_at(agg@, 0),
            n == agg@.len(),
            4 + 24 * count <= n,
            name@.len() == ENTRY_NAME_LEN,
            forall|j: int| 0 <= j < k ==> dir_entry_name(agg@, j) != name@,
        decreases count - k,
    {
        let base = 4 + 24 * k;
        let ename = take_bytes(agg, base, ENTRY_NAME_LEN);
        if crate::wire::bytes_eq(&ename, name) {
            let off = read_u32(agg, base + ENTRY_NAME_LEN);
            let len = read_u32(agg, base + ENTRY_NAME_LEN + 4);
            if (off as u64) + (len as u64) > (n as u64) {
                proof {
                    assert(dir_entry_name(agg@, k as int) == name@);
                    assert(!dir_window_ok(agg@, k as int));
                }
                return Err(ParamParseError::BadDirectory);
            }
            return Ok(k);
        }
        k = k + 1;
    }
    Err(ParamParseError::TableNotFound)
}

/// Copy out the byte window directory entry `k` points at.
pub fn dir_table_bytes(agg: &Vec<u8>, k: usize) -> (r: Vec<u8>)
    requires
        dir_ok(agg@),
        k < u32_at(agg@, 0),
        dir_window_ok(agg@, k as int),
    ensures
        r@ == dir_slice(agg@, k as int),
{
    let n = agg.len();
    proof {
        assert(24 * (k as int) + 24 <= 24 * (u32_at(agg@, 0) as int)) by (nonlinear_arith)
            requires
                k + 1 <= u32_at(agg@, 0),
        ;
    }
    let base = 4 + 24 * k;
    let off = read_u32(agg, base + ENTRY_NAME_LEN);
    let len = read_u32(agg, base + ENTRY_NAME_LEN + 4);
    take_bytes(agg, off as usize, len as usize)
}

/// A kind token for each schema the registry describes.
#[derive(Debug, PartialEq, Eq, Structural, Clone, Copy)]
pub enum ParamKind {
    /// Dialogue rows.
    Talk,
    /// Weapon rows.
    EquipWeapon,
    /// Status-effect rows.
    SpEffect,
}

/// What a declared field holds.
#[derive(Debug, PartialEq, Eq, Structural, Clone, Copy)]
pub enum ParamFieldKind {
    Numeric,
    Text,
    Choice,
}

/// One declared field of a row layout.
pub struct ParamField {
    pub name: String,
    pub offset: usize,
    pub width: usize,
    pub kind: ParamFieldKind,
}

/// A supplied row-layout description: the table's name in the aggregate
/// directory and the declared fields.
pub struct ParamSchema {
    pub table_name: Vec<u8>,
    pub fields: Vec<ParamField>,
}

/// The directory name of each param kind's table, zero-padded.
pub open spec fn spec_schema_name(kind: ParamKind) -> Seq<u8> {
    match kind {
        ParamKind::Talk => crate::names::pad_zero("talk".spec_bytes(), ENTRY_NAME_LEN as int),
        ParamKind::EquipWeapon => crate::names::pad_zero(
            "equip_weapon".spec_bytes(),
            ENTRY_NAME_LEN as int,
        ),
        ParamKind::SpEffect => crate::names::pad_zero(
            "sp_effect".spec_bytes(),
            ENTRY_NAME_LEN as int,
        ),
    }
}

/// The zero-padded name of the aggregate entry that holds every param
/// table.
pub open spec fn spec_params_entry_name() -> Seq<u8> {
    crate::names::pad_zero("params".spec_bytes(), ENTRY_NAME_LEN as int)
}

/// The padded directory name of a param kind's table.
pub fn schema_table_name(kind: ParamKind) -> (r: Vec<u8>)
    ensures
        r@ == spec_schema_name(kind),
        r@.len() == ENTRY_NAME_LEN,
{
    let s: &str = match kind {
        ParamKind::Talk => "talk",
        ParamKind::EquipWeapon => "equip_weapon",
        ParamKind::SpEffect => "sp_effect",
    };
    proof {
        reveal_strlit("talk");
        reveal_strlit("equip_weapon");
        reveal_strlit("sp_effect");
        assert(vstd::string::is_ascii("talk"));
        assert(vstd::string::is_ascii("equip_weapon"));
        assert(vstd::string::is_ascii("sp_effect"));
    }
    match crate::names::padded_name(s, ENTRY_NAME_LEN) {
        Some(b) => b,
        None => vstd::pervasive::unreached(),
    }
}

/// The padded name of the aggregate params entry.
pub fn params_entry_name() -> (r: Vec<u8>)
    ensures
        r@ == spec_params_entry_name(),
        r@.len() == ENTRY_NAME_LEN,
{
    proof {
        reveal_strlit("params");
        assert(vstd::string::is_ascii("params"));
    }
    match crate::names::padded_name("params", ENTRY_NAME_LEN) {
        Some(b) => b,
        None => vstd::pervasive::unreached(),
    }
}

/// The supplied row-layout description of each param kind.
pub fn schema_of(kind: ParamKind) -> (s: ParamSchema)
    ensures
        s.table_name@ == spec_schema_name(kind),
{
    let table_name = schema_table_name(kind);
    let mut fields: Vec<ParamField> = Vec::new();
    match kind {
        ParamKind::Talk => {
            fields.push(ParamField {
                name: String::from_str("msg_id"),
                offset: 4,
                width: 4,
                kind: ParamFieldKind::Numeric,
            });
            fields.push(ParamField {
                name: String::from_str("voice_id"),
                offset: 8,
                width: 4,
                kind: ParamFieldKind::Numeric,
            });
        },
        ParamKind::EquipWeapon => {
            fields.push(ParamField {
                name: String::from_str("weight"),
                offset: 4,
                width: 2,
                kind: ParamFieldKind::Numeric,
            });
            fields.push(ParamField {
                name: String::from_str("attack_base"),
                offset: 6,
                width: 2,
                kind: ParamFieldKind::Numeric,
            });
            fields.push(ParamField {
                name: String::from_str("category"),
                offset: 8,
                width: 1,
                kind: ParamFieldKind::Choice,
            });
        },
        ParamKind::SpEffect => {
            fields.push(ParamField {
                name: String::from_str("duration"),
                offset: 4,
                width: 4,
                kind: ParamFieldKind::Numeric,
            });
            fields.push(ParamField {
                name: String::from_str("category"),
                offset: 8,
                width: 1,
                kind: ParamFieldKind::Choice,
            });
        },
    }
    ParamSchema { table_name, fields }
}

} // verus!
