//! Byte-level encoding helpers: big-endian for USB/IP headers, little-endian
//! for USB descriptors.
use vstd::prelude::*;

verus! {

/// The four bytes of `x`, most significant first.
pub open spec fn be32(x: u32) -> Seq<u8> {
    seq![(x >> 24u32) as u8, (x >> 16u32) as u8, (x >> 8u32) as u8, x as u8]
}

/// The two bytes of `x`, most significant first.
pub open spec fn be16(x: u16) -> Seq<u8> {
    seq![(x >> 8u16) as u8, x as u8]
}

/// The two bytes of `x`, least significant first.
pub open spec fn le16(x: u16) -> Seq<u8> {
    seq![x as u8, (x >> 8u16) as u8]
}

/// The value of two little-endian bytes.
pub open spec fn le16_value(lo: u8, hi: u8) -> u16 {
    (lo as u16) | ((hi as u16) << 8u16)
}

/// The value of four big-endian bytes.
pub open spec fn be32_value(b0: u8, b1: u8, b2: u8, b3: u8) -> u32 {
    ((b0 as u32) << 24u32) | ((b1 as u32) << 16u32) | ((b2 as u32) << 8u32) | (b3 as u32)
}

/// `n` zero bytes.
pub open spec fn zeros(n: nat) -> Seq<u8> {
    Seq::new(n, |i: int| 0u8)
}

/// `s` followed by zero bytes up to length `n` (when `s` is no longer than `n`).
pub open spec fn padded(s: Seq<u8>, n: nat) -> Seq<u8> {
    s + zeros((n - s.len()) as nat)
}

pub proof fn lemma_le16_value(x: u16)
    ensures
        le16_value(x as u8, (x >> 8u16) as u8) == x,
{
    assert(((x as u8) as u16) | ((((x >> 8u16) as u8) as u16) << 8u16) == x) by (bit_vector);
}

pub proof fn lemma_be32_value(x: u32)
    ensures
        be32_value((x >> 24u32) as u8, (x >> 16u32) as u8, (x >> 8u32) as u8, x as u8) == x,
{
    assert(((((x >> 24u32) as u8) as u32) << 24u32) | ((((x >> 16u32) as u8) as u32) << 16u32)
        | ((((x >> 8u32) as u8) as u32) << 8u32) | ((x as u8) as u32) == x) by (bit_vector);
}

/// An endpoint number below 16, as an address, with and without the IN bit.
pub proof fn lemma_endpoint_number(x: u32)
    requires
        x <= 15,
    ensures
        ((x as u8) | 0x80u8) == (x | 0x80u32) as u8,
        ((x as u8) | 0x80u8) & 0x7fu8 == x as u8,
        (x as u8) & 0x7fu8 == x as u8,
        ((x | 0x80u32) as u8) & 0x7fu8 == x as u8,
{
    assert(((x as u8) | 0x80u8) == (x | 0x80u32) as u8) by (bit_vector)
        requires
            x <= 15u32,
    ;
    assert(((x as u8) | 0x80u8) & 0x7fu8 == x as u8) by (bit_vector)
        requires
            x <= 15u32,
    ;
    assert((x as u8) & 0x7fu8 == x as u8) by (bit_vector)
        requires
            x <= 15u32,
    ;
    assert(((x | 0x80u32) as u8) & 0x7fu8 == x as u8) by (bit_vector)
        requires
            x <= 15u32,
    ;
}

/// Appends the big-endian bytes of `x`.
pub fn push_u32_be(out: &mut Vec<u8>, x: u32)
    ensures
        final(out)@ == old(out)@ + be32(x),
{
    out.push((x >> 24u32) as u8);
    out.push((x >> 16u32) as u8);
    out.push((x >> 8u32) as u8);
    out.push(x as u8);
    assert(final(out)@ =~= old(out)@ + be32(x));
}

/// Appends the big-endian bytes of `x`.
pub fn push_u16_be(out: &mut Vec<u8>, x: u16)
    ensures
        final(out)@ == old(out)@ + be16(x),
{
    out.push((x >> 8u16) as u8);
    out.push(x as u8);
    assert(final(out)@ =~= old(out)@ + be16(x));
}

/// Appends the little-endian bytes of `x`.
pub fn push_u16_le(out: &mut Vec<u8>, x: u16)
    ensures
        final(out)@ == old(out)@ + le16(x),
{
    out.push(x as u8);
    out.push((x >> 8u16) as u8);
    assert(final(out)@ =~= old(out)@ + le16(x));
}

/// Appends all of `src`.
pub fn push_bytes(out: &mut Vec<u8>, src: &[u8])
    ensures
        final(out)@ == old(out)@ + src@,
{
    let mut i: usize = 0;
    while i < src.len()
        invariant
            0 <= i <= src@.len(),
            out@ == old(out)@ + src@.subrange(0, i as int),
        decreases src@.len() - i,
    {
        out.push(src[i]);
        i = i + 1;
        assert(out@ =~= old(out)@ + src@.subrange(0, i as int));
    }
    assert(src@.subrange(0, src@.len() as int) =~= src@);
}

/// Appends `src` followed by zero bytes up to `n` bytes in all.
pub fn push_padded(out: &mut Vec<u8>, src: &[u8], n: usize)
    requires
        src@.len() <= n,
    ensures
        final(out)@ == old(out)@ + padded(src@, n as nat),
{
    push_bytes(out, src);
    let mut i: usize = src.len();
    while i < n
        invariant
            src@.len() <= i <= n,
            out@ == old(out)@ + src@ + zeros((i - src@.len()) as nat),
        decreases n - i,
    {
        out.push(0u8);
        i = i + 1;
        assert(out@ =~= old(out)@ + src@ + zeros((i - src@.len()) as nat));
    }
    assert(old(out)@ + src@ + zeros((n - src@.len()) as nat) =~= old(out)@ + padded(src@, n as nat));
}

/// Reads four big-endian bytes starting at `at`.
pub fn read_u32_be(b: &[u8], at: usize) -> (r: u32)
    requires
        at + 4 <= b@.len(),
    ensures
        r == be32_value(b@[at as int], b@[at + 1], b@[at + 2], b@[at + 3]),
{
    ((b[at] as u32) << 24u32) | ((b[at + 1] as u32) << 16u32) | ((b[at + 2] as u32) << 8u32) | (
    b[at + 3] as u32)
}

/// A copy of `src`.
pub fn copy_of(src: &[u8]) -> (r: Vec<u8>)
    ensures
        r@ == src@,
{
    let mut r: Vec<u8> = Vec::new();
    push_bytes(&mut r, src);
    assert(r@ =~= src@);
    r
}

} // verus!
