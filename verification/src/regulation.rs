//! Regulation section: its plaintext is itself a nested archive that holds
//! the game-balance database.
//!
//! The archive is an entry table (name, offset, length per entry) over a
//! zlib-compressed body.  One deterministically named aggregate entry holds
//! every param table back to back, with an inner directory giving each
//! table's name, offset and length; the param codec consumes that bridge.
//!
//! The facade only reads the regulation, so the section is re-emitted
//! verbatim on save; `repack` rebuilds the framing for callers that edit
//! entries out-of-band.

use crate::compress::{zlib_compress, zlib_decompress, zlib_deflate_of, zlib_inflate_of};
use crate::layout::{ENTRY_NAME_LEN, REGULATION_PT_LEN};

use crate::wire::{push_bytes, push_u32, read_u32, take_bytes, u32_at};
use vstd::bytes::spec_u32_to_le_bytes;
use vstd::prelude::*;

verus! {

/// The decoded regulation section.  Its archive is unpacked on demand;
/// the section's plaintext stays the authoritative state.
pub struct UserData11 {
    /// On-disk image this section was loaded from.
    pub raw: Vec<u8>,
    /// IV stored in `raw`; preserved across re-encodes.
    pub iv: Vec<u8>,
    /// Whether the stored checksum matched at load time.
    pub is_valid: bool,
    /// Decrypted plaintext: the archive bytes, zero-padded to the
    /// section's capacity.
    pub plaintext: Vec<u8>,
}

impl UserData11 {
    pub open spec fn wf(self, variant: crate::layout::SaveType) -> bool {
        &&& self.raw@.len() == variant.spec_section_len(REGULATION_PT_LEN as int)
        &&& self.iv@.len() == crate::layout::IV_LEN
        &&& self.plaintext@.len() == REGULATION_PT_LEN
    }
}

/// Compression level the archive body is deflated with on repack.
pub const ARCHIVE_LEVEL: u8 = 6;

/// One named entry of the unpacked archive.
pub struct ArchiveEntry {
    /// Entry name, zero-padded to `ENTRY_NAME_LEN`.
    pub name: Vec<u8>,
    pub data: Vec<u8>,
}

/// The unpacked regulation archive: named byte blobs in file order.
pub struct RegulationArchive {
    pub entries: Vec<ArchiveEntry>,
}

/// Errors of the archive codec; all of them are fatal for the unpack.
#[derive(Debug, PartialEq, Eq, Structural, Clone, Copy)]
pub enum RegulationParseError {
    /// The entry table runs past the archive header area.
    TruncatedEntryTable,
    /// The compressed body does not decompress.
    Decompression,
    /// An entry's offset/length window lies outside the decompressed body.
    EntryOutOfBounds,
    /// The archive lacks the aggregate param entry.
    MissingParamEntry,
}

impl ArchiveEntry {
    pub open spec fn wf(self) -> bool {
        self.name@.len() == ENTRY_NAME_LEN
    }
}

impl RegulationArchive {
    pub open spec fn wf(self) -> bool {
        forall|k: int| 0 <= k < self.entries@.len() ==> (#[trigger] self.entries@[k]).wf()
    }
}

/// The body an archive's entries describe: every entry's bytes at its
/// recorded offset.  `unpack` checks the windows; `entry_at` states them.
pub open spec fn entry_at(body: Seq<u8>, pt: Seq<u8>, k: int) -> Seq<u8> {
    let off = u32_at(pt, 8 + 24 * k + ENTRY_NAME_LEN as int);
    let len = u32_at(pt, 8 + 24 * k + ENTRY_NAME_LEN + 4);
    body.subrange(off as int, off + len)
}

/// The entry count and compressed length the archive header declares fit
/// the section.
pub open spec fn archive_counts_ok(pt: Seq<u8>) -> bool {
    let count = u32_at(pt, 0) as int;
    let clen = u32_at(pt, 4) as int;
    &&& 24 * count <= REGULATION_PT_LEN - 8
    &&& clen <= REGULATION_PT_LEN - 8 - 24 * count
}

/// The compressed body: the bytes after the entry table, at the declared
/// compressed length.
pub open spec fn archive_comp(pt: Seq<u8>) -> Seq<u8> {
    let count = u32_at(pt, 0) as int;
    pt.subrange(8 + 24 * count, 8 + 24 * count + u32_at(pt, 4) as int)
}

/// The decompressed body.
pub open spec fn archive_body(pt: Seq<u8>) -> Seq<u8> {
    zlib_inflate_of(archive_comp(pt))->0
}

/// The name window of archive entry `k`.
pub open spec fn archive_entry_name(pt: Seq<u8>, k: int) -> Seq<u8> {
    pt.subrange(8 + 24 * k, 8 + 24 * k + ENTRY_NAME_LEN as int)
}

/// Entry `k`'s offset/length window lies inside the decompressed body.
pub open spec fn archive_entry_window_ok(pt: Seq<u8>, k: int) -> bool {
    let off = u32_at(pt, 8 + 24 * k + ENTRY_NAME_LEN as int) as int;
    let len = u32_at(pt, 8 + 24 * k + ENTRY_NAME_LEN + 4) as int;
    off + len <= archive_body(pt).len()
}

/// Unpack the regulation plaintext: read the entry table, decompress the
/// body once, and slice each entry's window out of it.
///
/// The archive header is `entry_count`, `compressed_len`, then
/// `entry_count` records of name (16 bytes), offset and length; the
/// compressed body follows the table.
pub fn unpack(pt: &Vec<u8>) -> (r: Result<RegulationArchive, RegulationParseError>)
    requires
        pt@.len() == REGULATION_PT_LEN,
    ensures
        match r {
            Ok(archive) => {
                let count = u32_at(pt@, 0) as int;
                &&& archive_counts_ok(pt@)
                &&& zlib_inflate_of(archive_comp(pt@)) is Some
                &&& archive.wf()
                &&& archive.entries@.len() == count
                &&& forall|k: int| 0 <= k < count ==> archive_entry_window_ok(pt@, k)
                &&& forall|k: int|
                    0 <= k < count ==> (#[trigger] archive.entries@[k]).name@
                        == archive_entry_name(pt@, k)
                &&& forall|k: int|
                    0 <= k < count ==> (#[trigger] archive.entries@[k]).data@ == entry_at(
                        archive_body(pt@),
                        pt@,
                        k,
                    )
            },
            Err(RegulationParseError::TruncatedEntryTable) => !archive_counts_ok(pt@),
            Err(RegulationParseError::Decompression) => archive_counts_ok(pt@)
                && zlib_inflate_of(archive_comp(pt@)) is None,
            Err(RegulationParseError::EntryOutOfBounds) => {
                &&& archive_counts_ok(pt@)
                &&& zlib_inflate_of(archive_comp(pt@)) is Some
                &&& exists|k: int|
                    0 <= k < u32_at(pt@, 0) && !(#[trigger] archive_entry_window_ok(pt@, k))
            },
            Err(_) => false,
        },
{
    let count32 = read_u32(pt, 0);
    let comp_len32 = read_u32(pt, 4);
    if count32 > (REGULATION_PT_LEN as u32) / 24 {
        return Err(RegulationParseError::TruncatedEntryTable);
    }
    let count = count32 as usize;
    let comp_len = comp_len32 as usize;
    if 8 + 24 * count > REGULATION_PT_LEN || comp_len > REGULATION_PT_LEN - 8 - 24 * count {
        return Err(RegulationParseError::TruncatedEntryTable);
    }
    let comp = take_bytes(pt, 8 + 24 * count, comp_len);
    let body = match zlib_decompress(&comp) {
        Some(b) => b,
        None => {
            return Err(RegulationParseError::Decompression);
        },
    };
    let body_len = body.len();
    let mut entries: Vec<ArchiveEntry> = Vec::new();
    let mut k: usize = 0;
    while k < count
        invariant
            k <= count,
            8 + 24 * count <= REGULATION_PT_LEN,
            pt@.len() == REGULATION_PT_LEN,
            count == u32_at(pt@, 0) as int,
            archive_counts_ok(pt@),
            body@ == zlib_inflate_of(
                pt@.subrange(8 + 24 * count, 8 + 24 * count + u32_at(pt@, 4) as int),
            )->0,
            zlib_inflate_of(
                pt@.subrange(8 + 24 * count, 8 + 24 * count + u32_at(pt@, 4) as int),
            ) is Some,
            body_len == body@.len(),
            entries@.len() == k,
            forall|j: int| 0 <= j < k ==> (#[trigger] entries@[j]).wf(),
            forall|j: int|
                0 <= j < k ==> (#[trigger] entries@[j]).name@ == pt@.subrange(
                    8 + 24 * j,
                    8 + 24 * j + ENTRY_NAME_LEN as int,
                ),
            forall|j: int|
                0 <= j < k ==> (#[trigger] entries@[j]).data@ == entry_at(body@, pt@, j),
            forall|j: int| 0 <= j < k ==> #[trigger] archive_entry_window_ok(pt@, j),
        decreases count - k,
    {
        let base = 8 + 24 * k;
        let name = take_bytes(pt, base, ENTRY_NAME_LEN);
        let off32 = read_u32(pt, base + ENTRY_NAME_LEN);
        let len32 = read_u32(pt, base + ENTRY_NAME_LEN + 4);
        if (off32 as u64) + (len32 as u64) > (body_len as u64) {
            proof {
                assert(!archive_entry_window_ok(pt@, k as int));
            }
            return Err(RegulationParseError::EntryOutOfBounds);
        }
        proof {
            assert(archive_entry_window_ok(pt@, k as int));
        }
        let data = take_bytes(&body, off32 as usize, len32 as usize);
        entries.push(ArchiveEntry { name, data });
        k = k + 1;
    }
    Ok(RegulationArchive { entries })
}

/// The framing `repack` produces: count, compressed length, the entry
/// table rebuilt with recomputed offsets, the compressed body, and zero
/// padding up to the section capacity.
pub open spec fn spec_repack(archive: RegulationArchive) -> Seq<u8> {
    let body = flat_entries(archive.entries@);
    let comp = zlib_deflate_of(body, ARCHIVE_LEVEL);
    let header = spec_u32_to_le_bytes(archive.entries@.len() as u32) + spec_u32_to_le_bytes(
        comp.len() as u32,
    ) + flat_entry_table(archive.entries@, 0) + comp;
    header + Seq::new((REGULATION_PT_LEN - header.len()) as nat, |i: int| 0u8)
}

/// Every entry's bytes, concatenated: the archive body before compression.
pub open spec fn flat_entries(entries: Seq<ArchiveEntry>) -> Seq<u8>
    decreases entries.len(),
{
    if entries.len() == 0 {
        Seq::empty()
    } else {
        flat_entries(entries.drop_last()) + entries.last().data@
    }
}

/// The rebuilt entry table, offsets recomputed from `base` on.
pub open spec fn flat_entry_table(entries: Seq<ArchiveEntry>, base: int) -> Seq<u8>
    decreases entries.len(),
{
    if entries.len() == 0 {
        Seq::empty()
    } else {
        flat_entry_table(entries.drop_last(), base) + entries.last().name@
            + spec_u32_to_le_bytes(
            (base + flat_entries(entries.drop_last()).len()) as u32,
        ) + spec_u32_to_le_bytes(entries.last().data@.len() as u32)
    }
}


impl RegulationArchive {
    /// First entry with the given (zero-padded) name.
    pub fn find_entry(&self, name: &Vec<u8>) -> (r: Option<usize>)
        ensures
            match r {
                Some(k) => {
                    &&& k < self.entries@.len()
                    &&& self.entries@[k as int].name@ == name@
                    &&& forall|j: int|
                        0 <= j < k ==> (#[trigger] self.entries@[j]).name@ != name@
                },
                None => forall|j: int|
                    0 <= j < self.entries@.len() ==> (#[trigger] self.entries@[j]).name@
                        != name@,
            },
    {
        let mut k: usize = 0;
        while k < self.entries.len()
            invariant
                k <= self.entries@.len(),
                forall|j: int| 0 <= j < k ==> (#[trigger] self.entries@[j]).name@ != name@,
            decreases self.entries@.len() - k,
        {
            if crate::wire::bytes_eq(&self.entries[k].name, name) {
                return Some(k);
            }
            k = k + 1;
        }
        None
    }
}


pub proof fn lemma_flat_entries_push(entries: Seq<ArchiveEntry>, e: ArchiveEntry)
    ensures
        flat_entries(entries.push(e)) == flat_entries(entries) + e.data@,
{
    assert(entries.push(e).drop_last() =~= entries);
    assert(entries.push(e).last() == e);
}

pub proof fn lemma_flat_entry_table_push(entries: Seq<ArchiveEntry>, e: ArchiveEntry, base: int)
    ensures
        flat_entry_table(entries.push(e), base) == flat_entry_table(entries, base) + e.name@
            + spec_u32_to_le_bytes((base + flat_entries(entries).len()) as u32)
            + spec_u32_to_le_bytes(e.data@.len() as u32),
{
    assert(entries.push(e).drop_last() =~= entries);
    assert(entries.push(e).last() == e);
    assert(flat_entry_table(entries.push(e), base) == flat_entry_table(entries, base)
        + e.name@ + spec_u32_to_le_bytes((base + flat_entries(entries).len()) as u32)
        + spec_u32_to_le_bytes(e.data@.len() as u32));
}

pub proof fn lemma_flat_entry_table_len(entries: Seq<ArchiveEntry>, base: int)
    requires
        forall|k: int| 0 <= k < entries.len() ==> (#[trigger] entries[k]).wf(),
    ensures
        flat_entry_table(entries, base).len() == 24 * entries.len(),
    decreases entries.len(),
{
    vstd::bytes::lemma_auto_spec_u32_to_from_le_bytes();
    if entries.len() > 0 {
        lemma_flat_entry_table_len(entries.drop_last(), base);
    }
}

pub proof fn lemma_flat_entries_prefix_le(entries: Seq<ArchiveEntry>, k: int)
    requires
        0 <= k <= entries.len(),
    ensures
        flat_entries(entries.subrange(0, k)).len() <= flat_entries(entries).len(),
    decreases entries.len() - k,
{
    if k == entries.len() {
        assert(entries.subrange(0, k) =~= entries);
    } else {
        lemma_flat_entries_prefix_le(entries, k + 1);
        assert(entries.subrange(0, k + 1).drop_last() =~= entries.subrange(0, k));
        assert(flat_entries(entries.subrange(0, k + 1)) == flat_entries(entries.subrange(0, k))
            + entries[k].data@);
    }
}

/// The rebuilt archive fits the regulation section.
pub open spec fn repack_fits(archive: RegulationArchive) -> bool {
    let body = flat_entries(archive.entries@);
    let comp = zlib_deflate_of(body, ARCHIVE_LEVEL);
    &&& body.len() <= 0xFFFF_FFFF
    &&& 8 + 24 * archive.entries@.len() + comp.len() <= REGULATION_PT_LEN
}

/// Rebuild the regulation plaintext from an unpacked archive: the entry
/// table is rewritten with offsets recomputed from the entries' current
/// lengths, the body is re-concatenated and re-compressed, and the result
/// is zero-padded to the section's capacity.  `None` when the rebuilt
/// archive cannot fit.
pub fn repack(archive: &RegulationArchive) -> (r: Option<Vec<u8>>)
    requires
        archive.wf(),
    ensures
        r is Some <==> repack_fits(*archive),
        r is Some ==> r->0@ == spec_repack(*archive),
        r is Some ==> r->0@.len() == REGULATION_PT_LEN,
{
    let n_entries = archive.entries.len();
    if n_entries > REGULATION_PT_LEN {
        proof {
            lemma_flat_entry_table_len(archive.entries@, 0);
        }
        return None;
    }
    let mut body: Vec<u8> = Vec::new();
    let mut table: Vec<u8> = Vec::new();
    let mut k: usize = 0;
    while k < n_entries
        invariant
            archive.wf(),
            k <= n_entries,
            n_entries == archive.entries@.len(),
            body@ == flat_entries(archive.entries@.subrange(0, k as int)),
            table@ == flat_entry_table(archive.entries@.subrange(0, k as int), 0),
            body@.len() <= 0xFFFF_FFFF,
        decreases n_entries - k,
    {
        let e = &archive.entries[k];
        if (e.data.len() as u64) > 0xFFFF_FFFFu64 - (body.len() as u64) {
            proof {
                lemma_flat_entries_prefix_le(archive.entries@, k + 1);
                assert(archive.entries@.subrange(0, k + 1 as int).drop_last()
                    =~= archive.entries@.subrange(0, k as int));
                assert(flat_entries(archive.entries@.subrange(0, k + 1 as int)).len()
                    == body@.len() + archive.entries@[k as int].data@.len());
            }
            return None;
        }
        push_bytes(&mut table, &e.name);
        push_u32(&mut table, body.len() as u32);
        push_u32(&mut table, e.data.len() as u32);
        push_bytes(&mut body, &e.data);
        proof {
            assert(archive.entries@.subrange(0, k + 1 as int) =~= archive.entries@.subrange(
                0,
                k as int,
            ).push(archive.entries@[k as int]));
            lemma_flat_entries_push(
                archive.entries@.subrange(0, k as int),
                archive.entries@[k as int],
            );
            lemma_flat_entry_table_push(
                archive.entries@.subrange(0, k as int),
                archive.entries@[k as int],
                0,
            );
        }
        k = k + 1;
    }
    proof {
        assert(archive.entries@.subrange(0, n_entries as int) =~= archive.entries@);
    }
    let comp = zlib_compress(&body, ARCHIVE_LEVEL);
    let head = 8 + 24 * n_entries;
    proof {
        lemma_flat_entry_table_len(archive.entries@, 0);
    }
    if head > REGULATION_PT_LEN || comp.len() > REGULATION_PT_LEN - head {
        return None;
    }
    let mut out: Vec<u8> = Vec::new();
    push_u32(&mut out, n_entries as u32);
    push_u32(&mut out, comp.len() as u32);
    push_bytes(&mut out, &table);
    push_bytes(&mut out, &comp);
    let ghost header = out@;
    proof {
        vstd::bytes::lemma_auto_spec_u32_to_from_le_bytes();
        assert(table@.len() == 24 * n_entries);
        assert(header.len() == 8 + 24 * n_entries + comp@.len());
        assert(out@ =~= header + Seq::new(0nat, |i: int| 0u8));
    }
    while out.len() < REGULATION_PT_LEN
        invariant
            header.len() <= REGULATION_PT_LEN,
            header.len() <= out@.len() <= REGULATION_PT_LEN,
            out@ == header + Seq::new((out@.len() - header.len()) as nat, |i: int| 0u8),
        decreases REGULATION_PT_LEN - out@.len(),
    {
        out.push(0);
        proof {
            assert(header + Seq::new((out@.len() - header.len()) as nat, |i: int| 0u8)
                =~= (header + Seq::new(
                (out@.len() - 1 - header.len()) as nat,
                |i: int| 0u8,
            )).push(0u8));
        }
    }
    proof {
        assert(header + Seq::new(0nat, |i: int| 0u8) =~= header);
        assert(out@ =~= spec_repack(*archive));
    }
    Some(out)
}

} // verus!
