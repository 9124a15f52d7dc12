//! Bounds-clamped access to the file buffer.
//!
//! Declared raw sizes routinely exceed the physical file size (zero-fill is
//! not stored on disk), so reads are silently truncated to what the buffer
//! actually holds; truncation is correct behaviour here, not an error.

use vstd::prelude::*;
use vstd::bytes::{
    spec_u16_from_le_bytes,
    spec_u32_from_le_bytes,
    spec_u64_from_le_bytes,
    u16_from_le_bytes,
    u32_from_le_bytes,
    u64_from_le_bytes,
};
use vstd::slice::slice_subrange;

use crate::decoder::SectionHeaderRaw;

verus! {

/// The number of bytes a read starting at `offset` may return: `value`
/// clamped to what remains of a buffer of length `len` past `offset`.
pub open spec fn spec_clamped_size(len: nat, offset: nat, value: nat) -> nat {
    if offset + value > len {
        (len - offset) as nat
    } else {
        value
    }
}

/// The bytes that a bounds-clamped read of `size` bytes at `offset` yields:
/// empty past the end of the buffer, otherwise the bytes of the buffer from
/// `offset` for at most `size` bytes.
pub open spec fn spec_safe_read(pe: Seq<u8>, offset: nat, size: nat) -> Seq<u8> {
    if offset >= pe.len() {
        Seq::empty()
    } else {
        pe.subrange(offset as int, offset + spec_clamped_size(pe.len(), offset, size) as int)
    }
}

/// The physical size of the file buffer.
pub fn get_pe_file_size(pe: &[u8]) -> (n: usize)
    ensures
        n == pe@.len(),
{
    pe.len()
}

/// Clamps a read size to the bytes that remain past `offset`.
pub fn round_to_pe_sz_with_offset(pe: &[u8], offset: usize, value: usize) -> (r: usize)
    requires
        offset <= pe@.len(),
    ensures
        r == spec_clamped_size(pe@.len(), offset as nat, value as nat),
        offset + r <= pe@.len(),
        r <= value,
{
    let pe_sz = get_pe_file_size(pe);
    match value > pe_sz - offset {
        true => pe_sz - offset,
        false => value,
    }
}

/// Reads `size` bytes at `offset`, clamped to the buffer: the returned slice
/// never reaches out of bounds and is empty when `offset` is past the end.
pub fn safe_read<'a>(pe: &'a [u8], offset: usize, size: usize) -> (r: &'a [u8])
    ensures
        r@ == spec_safe_read(pe@, offset as nat, size as nat),
{
    let pe_sz = get_pe_file_size(pe);
    if offset >= pe_sz {
        return &pe[0..0];
    }
    let safe_size = round_to_pe_sz_with_offset(pe, offset, size);
    &pe[offset..offset + safe_size]
}

/// The little-endian 16-bit value at `off`, when it lies within the buffer.
pub open spec fn spec_read_u16(b: Seq<u8>, off: int) -> Option<u16> {
    if 0 <= off && off + 2 <= b.len() {
        Some(spec_u16_from_le_bytes(b.subrange(off, off + 2)))
    } else {
        None
    }
}

/// The little-endian 32-bit value at `off`, when it lies within the buffer.
pub open spec fn spec_read_u32(b: Seq<u8>, off: int) -> Option<u32> {
    if 0 <= off && off + 4 <= b.len() {
        Some(spec_u32_from_le_bytes(b.subrange(off, off + 4)))
    } else {
        None
    }
}

/// The little-endian 64-bit value at `off`, when it lies within the buffer.
pub open spec fn spec_read_u64(b: Seq<u8>, off: int) -> Option<u64> {
    if 0 <= off && off + 8 <= b.len() {
        Some(spec_u64_from_le_bytes(b.subrange(off, off + 8)))
    } else {
        None
    }
}

/// Reads a little-endian 16-bit value, bounds-checked.
pub fn read_u16_at(b: &[u8], off: u64) -> (r: Option<u16>)
    ensures
        r == spec_read_u16(b@, off as int),
{
    let n = b.len();
    if n < 2 || off > (n - 2) as u64 {
        return None;
    }
    let s = slice_subrange(b, off as usize, off as usize + 2);
    Some(u16_from_le_bytes(s))
}

/// Reads a little-endian 32-bit value, bounds-checked.
pub fn read_u32_at(b: &[u8], off: u64) -> (r: Option<u32>)
    ensures
        r == spec_read_u32(b@, off as int),
{
    let n = b.len();
    if n < 4 || off > (n - 4) as u64 {
        return None;
    }
    let s = slice_subrange(b, off as usize, off as usize + 4);
    Some(u32_from_le_bytes(s))
}

/// Reads a little-endian 64-bit value, bounds-checked.
pub fn read_u64_at(b: &[u8], off: u64) -> (r: Option<u64>)
    ensures
        r == spec_read_u64(b@, off as int),
{
    let n = b.len();
    if n < 8 || off > (n - 8) as u64 {
        return None;
    }
    let s = slice_subrange(b, off as usize, off as usize + 8);
    Some(u64_from_le_bytes(s))
}

/// Whether the virtual range declared by a section header contains the
/// relative virtual address.
pub open spec fn spec_header_contains_rva(h: SectionHeaderRaw, rva: u64) -> bool {
    h.virtual_address <= rva && (rva as int) < h.virtual_address + h.virtual_size
}

/// The file offset of a relative virtual address: the first section header
/// whose virtual range contains it decides, mapping it at the same distance
/// from its raw data pointer; no containing section means no offset.
pub open spec fn spec_translate_rva(hs: Seq<SectionHeaderRaw>, rva: u64) -> Option<u64>
    decreases hs.len(),
{
    if hs.len() == 0 {
        None
    } else if spec_header_contains_rva(hs[0], rva) {
        Some((hs[0].pointer_to_raw_data + rva - hs[0].virtual_address) as u64)
    } else {
        spec_translate_rva(hs.drop_first(), rva)
    }
}

/// Translates a relative virtual address to a file offset through the
/// section headers, first containing section deciding.
pub fn translate_rva(headers: &Vec<SectionHeaderRaw>, rva: u64) -> (r: Option<u64>)
    ensures
        r == spec_translate_rva(headers@, rva),
{
    let ghost all = headers@;
    let n = headers.len();
    assert(all.skip(0) =~= all);
    for i in 0..n
        invariant
            n == all.len(),
            all == headers@,
            spec_translate_rva(all, rva) == spec_translate_rva(all.skip(i as int), rva),
    {
        let h = &headers[i];
        proof {
            assert(all.skip(i as int)[0] == all[i as int]);
        }
        let va = h.virtual_address as u64;
        let vs = h.virtual_size as u64;
        if va <= rva && rva - va < vs {
            assert(spec_header_contains_rva(all[i as int], rva));
            return Some(h.pointer_to_raw_data as u64 + (rva - va));
        }
        proof {
            assert(!spec_header_contains_rva(all[i as int], rva));
            assert(all.skip(i as int).drop_first() =~= all.skip(i + 1));
        }
    }
    assert(all.skip(n as int).len() == 0);
    None
}

/// Collections whose elements can be counted and ranked by frequency.
pub trait Comparable<T, U> where T: Eq + core::hash::Hash + IntoIterator {
    /// Counts, over all collections, how often each element occurs in at
    /// least one of them, sorted by ascending count.
    fn compare(s: Vec<T>) -> Vec<(U, u32)>;
}

/// Every byte of a bounds-clamped read comes from the window that starts at
/// `offset` and ends at the declared size or the end of the buffer, whichever
/// comes first: the read range is a subset of
/// `[offset, min(offset + size, pe.len()))`.
pub proof fn lemma_safe_read_within_bounds(pe: Seq<u8>, offset: nat, size: nat)
    ensures
        spec_safe_read(pe, offset, size).len() <= size,
        spec_safe_read(pe, offset, size).len() > 0 ==> offset + spec_safe_read(pe, offset, size).len()
            <= pe.len(),
        forall|k: int|
            0 <= k < spec_safe_read(pe, offset, size).len() ==> spec_safe_read(pe, offset, size)[k]
                == pe[offset + k],
{
}

} // verus!
