//! Little-endian unsigned integers of the wire format.

use vstd::prelude::*;

verus! {

/// Width in bytes of every count and every offset of the wire format.
pub const W: usize = 4;

/// Width in bytes of a namespace id in the namespace table.
pub const NS_ID_BYTE_LEN: usize = 8;

/// Width in bytes of one entry of the namespace table: a namespace id and
/// an offset.
pub const NS_ENTRY_BYTE_LEN: usize = NS_ID_BYTE_LEN + W;

/// The four bytes that encode `x`, least significant first.
pub open spec fn le32(x: int) -> Seq<u8> {
    seq![
        (x % 256) as u8,
        (x / 256 % 256) as u8,
        (x / 65536 % 256) as u8,
        (x / 16777216 % 256) as u8,
    ]
}

/// The number that the four bytes of `s` from position `at` encode.
pub open spec fn le32_at(s: Seq<u8>, at: int) -> int {
    s[at] + 256 * s[at + 1] + 65536 * s[at + 2] + 16777216 * s[at + 3]
}

/// The eight bytes that encode `x`, least significant first.
pub open spec fn le64(x: int) -> Seq<u8> {
    le32(x % 4294967296) + le32(x / 4294967296)
}

/// The number that the eight bytes of `s` from position `at` encode.
pub open spec fn le64_at(s: Seq<u8>, at: int) -> int {
    le32_at(s, at) + 4294967296 * le32_at(s, at + 4)
}

/// Four bytes always encode a number below 2^32.
pub proof fn lemma_le32_at_bounds(s: Seq<u8>, at: int)
    ensures
        0 <= le32_at(s, at) <= u32::MAX,
{
}

/// Eight bytes always encode a number below 2^64.
pub proof fn lemma_le64_at_bounds(s: Seq<u8>, at: int)
    ensures
        0 <= le64_at(s, at) <= u64::MAX,
{
}

/// Decoding what `le32` encoded gives the number back.
pub proof fn lemma_le32_round_trip(x: int)
    requires
        0 <= x <= u32::MAX,
    ensures
        le32(x).len() == 4,
        le32_at(le32(x), 0) == x,
{
}

/// Decoding what `le64` encoded gives the number back.
pub proof fn lemma_le64_round_trip(x: int)
    requires
        0 <= x <= u64::MAX,
    ensures
        le64(x).len() == 8,
        le64_at(le64(x), 0) == x,
{
    lemma_le32_round_trip(x % 4294967296);
    lemma_le32_round_trip(x / 4294967296);
}

/// The digits of a number to the base 256 are what it was put together
/// from.
proof fn lemma_base_256_digits(b0: int, b1: int, b2: int, b3: int)
    requires
        0 <= b0 < 256,
        0 <= b1 < 256,
        0 <= b2 < 256,
        0 <= b3 < 256,
    ensures
        (b0 + 256 * b1 + 65536 * b2 + 16777216 * b3) % 256 == b0,
        (b0 + 256 * b1 + 65536 * b2 + 16777216 * b3) / 256 % 256 == b1,
        (b0 + 256 * b1 + 65536 * b2 + 16777216 * b3) / 65536 % 256 == b2,
        (b0 + 256 * b1 + 65536 * b2 + 16777216 * b3) / 16777216 % 256 == b3,
{
    let x = b0 + 256 * b1 + 65536 * b2 + 16777216 * b3;
    assert(x / 256 == b1 + 256 * b2 + 65536 * b3);
    assert(x / 65536 == b2 + 256 * b3);
    assert(x / 16777216 == b3);
}

/// Encoding what four bytes decode to gives the four bytes back.
pub proof fn lemma_le32_of_le32_at(s: Seq<u8>, at: int)
    requires
        0 <= at,
        at + 4 <= s.len(),
    ensures
        le32(le32_at(s, at)) == s.subrange(at, at + 4),
{
    lemma_base_256_digits(s[at] as int, s[at + 1] as int, s[at + 2] as int, s[at + 3] as int);
    assert(le32(le32_at(s, at)) =~= s.subrange(at, at + 4));
}

/// A number is read from the bytes at its position alone: what stands before
/// and after does not matter.
pub proof fn lemma_le32_at_embedded(before: Seq<u8>, x: int, after: Seq<u8>)
    requires
        0 <= x <= u32::MAX,
    ensures
        le32_at(before + le32(x) + after, before.len() as int) == x,
{
    lemma_le32_round_trip(x);
    let s = before + le32(x) + after;
    let at = before.len() as int;
    assert(s[at] == le32(x)[0]);
    assert(s[at + 1] == le32(x)[1]);
    assert(s[at + 2] == le32(x)[2]);
    assert(s[at + 3] == le32(x)[3]);
}

/// As `lemma_le32_at_embedded`, for eight bytes.
pub proof fn lemma_le64_at_embedded(before: Seq<u8>, x: int, after: Seq<u8>)
    requires
        0 <= x <= u64::MAX,
    ensures
        le64_at(before + le64(x) + after, before.len() as int) == x,
{
    let lo = x % 4294967296;
    let hi = x / 4294967296;
    let s = before + le64(x) + after;
    assert(s =~= before + le32(lo) + (le32(hi) + after));
    lemma_le32_at_embedded(before, lo, le32(hi) + after);
    assert(s =~= (before + le32(lo)) + le32(hi) + after);
    lemma_le32_at_embedded(before + le32(lo), hi, after);
}

/// Four bytes that lie in the front part of a byte string are read from the
/// front part alone.
pub proof fn lemma_le32_at_front(front: Seq<u8>, back: Seq<u8>, at: int)
    requires
        0 <= at,
        at + 4 <= front.len(),
    ensures
        le32_at(front + back, at) == le32_at(front, at),
{
}

/// Four bytes that lie in the back part of a byte string are read from the
/// back part alone.
pub proof fn lemma_le32_at_back(front: Seq<u8>, back: Seq<u8>, at: int)
    requires
        0 <= at,
        at + 4 <= back.len(),
    ensures
        le32_at(front + back, front.len() + at) == le32_at(back, at),
{
}

/// Eight bytes that lie in the front part of a byte string are read from the
/// front part alone.
pub proof fn lemma_le64_at_front(front: Seq<u8>, back: Seq<u8>, at: int)
    requires
        0 <= at,
        at + 8 <= front.len(),
    ensures
        le64_at(front + back, at) == le64_at(front, at),
{
}

/// Eight bytes that lie in the back part of a byte string are read from the
/// back part alone.
pub proof fn lemma_le64_at_back(front: Seq<u8>, back: Seq<u8>, at: int)
    requires
        0 <= at,
        at + 8 <= back.len(),
    ensures
        le64_at(front + back, front.len() + at) == le64_at(back, at),
{
}

/// Reads the number that the four bytes of `buf` from `at` encode.
pub fn read_u32(buf: &[u8], at: usize) -> (x: u32)
    requires
        at + 4 <= buf.len(),
    ensures
        x == le32_at(buf@, at as int),
{
    let b0: u32 = buf[at] as u32;
    let b1: u32 = buf[at + 1] as u32;
    let b2: u32 = buf[at + 2] as u32;
    let b3: u32 = buf[at + 3] as u32;
    b0 + 256 * b1 + 65536 * b2 + 16777216 * b3
}

/// Reads the number that the eight bytes of `buf` from `at` encode.
pub fn read_u64(buf: &[u8], at: usize) -> (x: u64)
    requires
        at + 8 <= buf.len(),
    ensures
        x == le64_at(buf@, at as int),
{
    let lo: u64 = read_u32(buf, at) as u64;
    let hi: u64 = read_u32(buf, at + 4) as u64;
    lo + 4294967296 * hi
}

/// Appends the four bytes that encode `x` to `out`.
pub fn push_u32(out: &mut Vec<u8>, x: u32)
    ensures
        final(out)@ == old(out)@ + le32(x as int),
{
    out.push((x % 256) as u8);
    out.push((x / 256 % 256) as u8);
    out.push((x / 65536 % 256) as u8);
    out.push((x / 16777216 % 256) as u8);
    assert(out@ =~= old(out)@ + le32(x as int));
}

/// Appends the eight bytes that encode `x` to `out`.
pub fn push_u64(out: &mut Vec<u8>, x: u64)
    ensures
        final(out)@ == old(out)@ + le64(x as int),
{
    push_u32(out, (x % 4294967296) as u32);
    push_u32(out, (x / 4294967296) as u32);
    assert(out@ =~= old(out)@ + le64(x as int));
}

/// Appends the bytes of `src` to `out`.
pub fn push_bytes(out: &mut Vec<u8>, src: &[u8])
    ensures
        final(out)@ == old(out)@ + src@,
{
    out.extend_from_slice(src);
    assert(out@ =~= old(out)@ + src@);
}

} // verus!
