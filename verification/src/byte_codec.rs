//! Little-endian encodings of the integers that travel through tracee
//! memory.

use vstd::prelude::*;

verus! {

/// The number that the first two bytes of `b` encode.
pub open spec fn le_u16(b: Seq<u8>) -> u16 {
    (b[0] + 0x100 * b[1]) as u16
}

/// The number that the first four bytes of `b` encode.
pub open spec fn le_u32(b: Seq<u8>) -> u32 {
    (b[0] + 0x100 * b[1] + 0x1_0000 * b[2] + 0x100_0000 * b[3]) as u32
}

/// The number that the first eight bytes of `b` encode.
pub open spec fn le_u64(b: Seq<u8>) -> u64 {
    (le_u32(b) + 0x1_0000_0000 * le_u32(b.skip(4))) as u64
}

/// The two bytes that encode `x`.
pub open spec fn u16_le(x: u16) -> Seq<u8> {
    seq![(x % 0x100) as u8, (x / 0x100) as u8]
}

/// The four bytes that encode `x`.
pub open spec fn u32_le(x: u32) -> Seq<u8> {
    seq![
        (x % 0x100) as u8,
        ((x / 0x100) % 0x100) as u8,
        ((x / 0x1_0000) % 0x100) as u8,
        (x / 0x100_0000) as u8,
    ]
}

/// The eight bytes that encode `x`.
pub open spec fn u64_le(x: u64) -> Seq<u8> {
    u32_le((x % 0x1_0000_0000) as u32) + u32_le((x / 0x1_0000_0000) as u32)
}

/// Decoding undoes encoding.
pub proof fn lemma_le_round_trip(x16: u16, x32: u32, x64: u64)
    ensures
        u16_le(x16).len() == 2,
        u32_le(x32).len() == 4,
        u64_le(x64).len() == 8,
        le_u16(u16_le(x16)) == x16,
        le_u32(u32_le(x32)) == x32,
        le_u64(u64_le(x64)) == x64,
{
    let lo = (x64 % 0x1_0000_0000) as u32;
    let hi = (x64 / 0x1_0000_0000) as u32;
    assert(u64_le(x64).skip(4) =~= u32_le(hi));
    assert(le_u32(u64_le(x64)) == le_u32(u32_le(lo)));
    lemma_le_u32_round_trip(lo);
    lemma_le_u32_round_trip(hi);
    lemma_le_u32_round_trip(x32);
}

proof fn lemma_le_u32_round_trip(x: u32)
    ensures
        le_u32(u32_le(x)) == x,
{
}

/// Decode a 16-bit number from `b[at..at + 2]`.
pub fn read_le_u16(b: &Vec<u8>, at: usize) -> (r: u16)
    requires
        at + 2 <= b.len(),
    ensures
        r == le_u16(b@.skip(at as int)),
{
    let b0: u16 = b[at] as u16;
    let b1: u16 = b[at + 1] as u16;
    b0 + 0x100 * b1
}

/// Decode a 32-bit number from `b[at..at + 4]`.
pub fn read_le_u32(b: &Vec<u8>, at: usize) -> (r: u32)
    requires
        at + 4 <= b.len(),
    ensures
        r == le_u32(b@.skip(at as int)),
{
    let b0: u32 = b[at] as u32;
    let b1: u32 = b[at + 1] as u32;
    let b2: u32 = b[at + 2] as u32;
    let b3: u32 = b[at + 3] as u32;
    b0 + 0x100 * b1 + 0x1_0000 * b2 + 0x100_0000 * b3
}

/// Decode a 64-bit number from `b[at..at + 8]`.
pub fn read_le_u64(b: &Vec<u8>, at: usize) -> (r: u64)
    requires
        at + 8 <= b.len(),
    ensures
        r == le_u64(b@.skip(at as int)),
{
    let lo: u64 = read_le_u32(b, at) as u64;
    let hi: u64 = read_le_u32(b, at + 4) as u64;
    assert(b@.skip(at as int).skip(4) =~= b@.skip(at + 4));
    lo + 0x1_0000_0000 * hi
}

/// Append the two bytes that encode `x`.
pub fn push_le_u16(out: &mut Vec<u8>, x: u16)
    ensures
        final(out)@ == old(out)@ + u16_le(x),
{
    out.push((x % 0x100) as u8);
    out.push((x / 0x100) as u8);
    assert(out@ =~= old(out)@ + u16_le(x));
}

/// Append the four bytes that encode `x`.
pub fn push_le_u32(out: &mut Vec<u8>, x: u32)
    ensures
        final(out)@ == old(out)@ + u32_le(x),
{
    out.push((x % 0x100) as u8);
    out.push(((x / 0x100) % 0x100) as u8);
    out.push(((x / 0x1_0000) % 0x100) as u8);
    out.push((x / 0x100_0000) as u8);
    assert(out@ =~= old(out)@ + u32_le(x));
}

/// Append the eight bytes that encode `x`.
pub fn push_le_u64(out: &mut Vec<u8>, x: u64)
    ensures
        final(out)@ == old(out)@ + u64_le(x),
{
    push_le_u32(out, (x % 0x1_0000_0000) as u32);
    push_le_u32(out, (x / 0x1_0000_0000) as u32);
    assert(out@ =~= old(out)@ + u64_le(x));
}

} // verus!
