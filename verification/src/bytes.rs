//! Little-endian integer fields and 8-byte alignment, the two primitives of the layout.

use vstd::prelude::*;
use vstd::bytes::*;
use vstd::slice::*;

verus! {

/// Alignment unit of every variable-length section of the bootstrap.
pub const RAFSV5_ALIGNMENT: u64 = 8;

/// The 16-bit little-endian integer stored at `off` in `s`.
pub open spec fn le_u16_at(s: Seq<u8>, off: int) -> u16 {
    spec_u16_from_le_bytes(s.subrange(off, off + 2))
}

/// The 32-bit little-endian integer stored at `off` in `s`.
pub open spec fn le_u32_at(s: Seq<u8>, off: int) -> u32 {
    spec_u32_from_le_bytes(s.subrange(off, off + 4))
}

/// The 64-bit little-endian integer stored at `off` in `s`.
pub open spec fn le_u64_at(s: Seq<u8>, off: int) -> u64 {
    spec_u64_from_le_bytes(s.subrange(off, off + 8))
}

/// `n` zero bytes.
pub open spec fn zeros(n: nat) -> Seq<u8> {
    Seq::new(n, |i: int| 0u8)
}

/// `n` rounded up to the next multiple of the alignment unit.
pub open spec fn align_up(n: int) -> int {
    (n + 7) / 8 * 8
}

/// Rounds `n` up to the next multiple of eight.
pub fn align_to_rafs(n: u64) -> (r: u64)
    requires
        n + 7 <= u64::MAX,
    ensures
        r == align_up(n as int),
        n <= r < n + 8,
        r % 8 == 0,
{
    (n + 7) / 8 * 8
}

/// The number of padding bytes that bring a field of `n` bytes to the alignment unit.
pub fn padding_for(n: usize) -> (r: usize)
    ensures
        r == align_up(n as int) - n,
        0 <= r < 8,
{
    let m = n % 8;
    if m == 0 {
        0
    } else {
        8 - m
    }
}

/// Reads the 16-bit little-endian integer at `off`.
pub fn get_le_u16(data: &[u8], off: usize) -> (v: u16)
    requires
        off + 2 <= data@.len(),
    ensures
        v == le_u16_at(data@, off as int),
{
    let end = data.len();
    assert(off + 2 <= end);
    u16_from_le_bytes(slice_subrange(data, off, off + 2))
}

/// Reads the 32-bit little-endian integer at `off`.
pub fn get_le_u32(data: &[u8], off: usize) -> (v: u32)
    requires
        off + 4 <= data@.len(),
    ensures
        v == le_u32_at(data@, off as int),
{
    let end = data.len();
    assert(off + 4 <= end);
    u32_from_le_bytes(slice_subrange(data, off, off + 4))
}

/// Reads the 64-bit little-endian integer at `off`.
pub fn get_le_u64(data: &[u8], off: usize) -> (v: u64)
    requires
        off + 8 <= data@.len(),
    ensures
        v == le_u64_at(data@, off as int),
{
    let end = data.len();
    assert(off + 8 <= end);
    u64_from_le_bytes(slice_subrange(data, off, off + 8))
}

/// Appends `v` as two little-endian bytes.
pub fn put_le_u16(buf: &mut Vec<u8>, v: u16)
    ensures
        final(buf)@ == old(buf)@ + spec_u16_to_le_bytes(v),
{
    let mut b = u16_to_le_bytes(v);
    buf.append(&mut b);
}

/// Appends `v` as four little-endian bytes.
pub fn put_le_u32(buf: &mut Vec<u8>, v: u32)
    ensures
        final(buf)@ == old(buf)@ + spec_u32_to_le_bytes(v),
{
    let mut b = u32_to_le_bytes(v);
    buf.append(&mut b);
}

/// Appends `v` as eight little-endian bytes.
pub fn put_le_u64(buf: &mut Vec<u8>, v: u64)
    ensures
        final(buf)@ == old(buf)@ + spec_u64_to_le_bytes(v),
{
    let mut b = u64_to_le_bytes(v);
    buf.append(&mut b);
}

/// Appends a copy of `data`.
pub fn put_bytes(buf: &mut Vec<u8>, data: &[u8])
    ensures
        final(buf)@ == old(buf)@ + data@,
{
    let ghost before = buf@;
    let mut i: usize = 0;
    while i < data.len()
        invariant
            i <= data@.len(),
            buf@ == before + data@.subrange(0, i as int),
        decreases data@.len() - i,
    {
        buf.push(data[i]);
        i = i + 1;
        assert(buf@ =~= before + data@.subrange(0, i as int));
    }
    assert(data@.subrange(0, i as int) =~= data@);
}

/// Appends `n` zero bytes.
pub fn put_zeros(buf: &mut Vec<u8>, n: usize)
    ensures
        final(buf)@ == old(buf)@ + zeros(n as nat),
{
    let ghost before = buf@;
    let mut i: usize = 0;
    while i < n
        invariant
            i <= n,
            buf@ == before + zeros(i as nat),
        decreases n - i,
    {
        buf.push(0u8);
        i = i + 1;
        assert(buf@ =~= before + zeros(i as nat));
    }
}

/// Copies `data[from..to]` into a fresh vector.
pub fn copy_range(data: &[u8], from: usize, to: usize) -> (v: Vec<u8>)
    requires
        from <= to <= data@.len(),
    ensures
        v@ == data@.subrange(from as int, to as int),
{
    slice_to_vec(slice_subrange(data, from, to))
}

} // verus!
