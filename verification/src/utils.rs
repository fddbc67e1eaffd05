//! Byte-level helpers shared by the data model and the wire protocol.

use vstd::prelude::*;

verus! {

/// The value of four bytes read as an unsigned little-endian integer.
pub open spec fn le_u32(b0: u8, b1: u8, b2: u8, b3: u8) -> int {
    b0 + 256 * b1 + 65536 * b2 + 16777216 * b3
}

/// The value of the first four bytes of `s`, read as an unsigned little-endian integer.
pub open spec fn le_u32_of(s: Seq<u8>) -> int
    recommends
        s.len() >= 4,
{
    le_u32(s[0], s[1], s[2], s[3])
}

/// The `i`-th byte (counting from the least significant one) of `v`.
pub open spec fn byte_of(v: u32, i: int) -> u8 {
    ((v as int / pow256(i)) % 256) as u8
}

/// `256` raised to `i`, for the small exponents a `u32` or `u64` needs.
pub open spec fn pow256(i: int) -> int
    decreases i,
{
    if i <= 0 {
        1
    } else {
        256 * pow256(i - 1)
    }
}

/// The four little-endian bytes of `v`.
pub open spec fn le_bytes(v: u32) -> Seq<u8> {
    seq![byte_of(v, 0), byte_of(v, 1), byte_of(v, 2), byte_of(v, 3)]
}

/// Little-endian bytes read back give the value they were made from.
pub proof fn lemma_le_bytes_roundtrip(v: u32)
    ensures
        le_u32_of(le_bytes(v)) == v,
        le_bytes(v).len() == 4,
{
    reveal_with_fuel(pow256, 4);
    let b0 = byte_of(v, 0);
    let b1 = byte_of(v, 1);
    let b2 = byte_of(v, 2);
    let b3 = byte_of(v, 3);
    assert(b0 + 256 * b1 + 65536 * b2 + 16777216 * b3 == v) by (nonlinear_arith)
        requires
            b0 == ((v as int / 1) % 256) as u8,
            b1 == ((v as int / 256) % 256) as u8,
            b2 == ((v as int / 65536) % 256) as u8,
            b3 == ((v as int / 16777216) % 256) as u8,
            0 <= v < 0x1_0000_0000,
    ;
}

/// Provides an interface for any type that can be converted to a `Vec<u8>`, the form in which
/// a value travels over a connection.
pub trait AsBytes {
    /// Returns the bytes that represent `self`.
    fn as_bytes(&self) -> Vec<u8>;
}

/// Reads the first four bytes of `bytes` as a little-endian `u32`.
pub fn parse_4_bytes(bytes: &[u8]) -> (res: u32)
    requires
        bytes@.len() >= 4,
    ensures
        res == le_u32_of(bytes@),
{
    let b0 = bytes[0];
    let b1 = bytes[1];
    let b2 = bytes[2];
    let b3 = bytes[3];
    let res: u32 = (b0 as u32) ^ ((b1 as u32) << 8u32) ^ ((b2 as u32) << 16u32) ^ ((b3 as u32) << 24u32);
    assert(res == b0 + 256 * b1 + 65536 * b2 + 16777216 * b3) by (bit_vector)
        requires
            res == (b0 as u32) ^ ((b1 as u32) << 8u32) ^ ((b2 as u32) << 16u32) ^ ((b3 as u32) << 24u32),
    ;
    res
}

/// The bytes that shifting and masking take out of a `u32` are its base-256 digits.
pub proof fn lemma_u32_shift_bytes(v: u32)
    ensures
        (v & 0xff) as u8 == (v % 256) as u8,
        ((v >> 8u32) & 0xff) as u8 == ((v / 256) % 256) as u8,
        ((v >> 16u32) & 0xff) as u8 == ((v / 65536) % 256) as u8,
        ((v >> 24u32) & 0xff) as u8 == ((v / 16777216) % 256) as u8,
{
    assert((v & 0xff) as u8 == (v % 256) as u8) by (bit_vector);
    assert(((v >> 8u32) & 0xff) as u8 == ((v / 256) % 256) as u8) by (bit_vector);
    assert(((v >> 16u32) & 0xff) as u8 == ((v / 65536) % 256) as u8) by (bit_vector);
    assert(((v >> 24u32) & 0xff) as u8 == ((v / 16777216) % 256) as u8) by (bit_vector);
}

/// The bytes that shifting and masking take out of a `u32` are its little-endian bytes.
pub proof fn lemma_u32_byte_of(v: u32)
    ensures
        (v & 0xff) as u8 == byte_of(v, 0),
        ((v >> 8u32) & 0xff) as u8 == byte_of(v, 1),
        ((v >> 16u32) & 0xff) as u8 == byte_of(v, 2),
        ((v >> 24u32) & 0xff) as u8 == byte_of(v, 3),
{
    reveal_with_fuel(pow256, 4);
    lemma_u32_shift_bytes(v);
}

/// Appends the bytes of `src` to `out`.
pub fn append_bytes(out: &mut Vec<u8>, src: &[u8])
    ensures
        final(out)@ == old(out)@ + src@,
{
    let mut i: usize = 0;
    while i < src.len()
        invariant
            i <= src@.len(),
            out@ == old(out)@ + src@.subrange(0, i as int),
        decreases src@.len() - i,
    {
        out.push(src[i]);
        i = i + 1;
        assert(src@.subrange(0, i as int) == src@.subrange(0, (i - 1) as int).push(src@[i - 1]));
    }
    assert(src@.subrange(0, src@.len() as int) == src@);
}

/// Writes the four little-endian bytes of `v` into `buf` at `at`.
pub fn put_le_u32<const N: usize>(buf: &mut [u8; N], at: usize, v: u32)
    requires
        at + 4 <= N,
    ensures
        final(buf)@ == old(buf)@.subrange(0, at as int) + le_bytes(v) + old(buf)@.subrange(
            at + 4,
            N as int,
        ),
{
    buf[at] = (v & 0xff) as u8;
    buf[at + 1] = ((v >> 8u32) & 0xff) as u8;
    buf[at + 2] = ((v >> 16u32) & 0xff) as u8;
    buf[at + 3] = ((v >> 24u32) & 0xff) as u8;
    proof {
        lemma_u32_byte_of(v);
        assert(final(buf)@ =~= old(buf)@.subrange(0, at as int) + le_bytes(v) + old(buf)@.subrange(
            at + 4,
            N as int,
        ));
    }
}

/// Copies the bytes of `s` from `start` up to `end` into a vector.
pub fn slice_to_vec(s: &[u8], start: usize, end: usize) -> (r: Vec<u8>)
    requires
        start <= end <= s@.len(),
    ensures
        r@ == s@.subrange(start as int, end as int),
{
    let mut r: Vec<u8> = Vec::new();
    let mut i: usize = start;
    while i < end
        invariant
            start <= i <= end,
            end <= s@.len(),
            r@ == s@.subrange(start as int, i as int),
        decreases end - i,
    {
        r.push(s[i]);
        i = i + 1;
        assert(r@ =~= s@.subrange(start as int, i as int));
    }
    r
}

/// `n` zero bytes.
pub open spec fn zeros(n: nat) -> Seq<u8> {
    Seq::new(n, |i: int| 0u8)
}

} // verus!
