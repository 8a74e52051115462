//! Byte-level helpers: big-endian integer fields and buffer splitting.
//!
//! All multi-byte integers in the encoding are big-endian. The spec
//! functions here are the single definition of that layout; the exec
//! functions are proved against them, and the round-trip lemmas carry the
//! codec's round-trip laws through the fixed-width fields.

use vstd::prelude::*;

verus! {

/// The four bytes of `x`, most significant first.
pub open spec fn spec_u32_to_be_bytes(x: u32) -> Seq<u8> {
    seq![
        ((x >> 24) & 0xff) as u8,
        ((x >> 16) & 0xff) as u8,
        ((x >> 8) & 0xff) as u8,
        (x & 0xff) as u8,
    ]
}

/// The u32 read from four bytes, most significant first.
pub open spec fn spec_u32_from_be_bytes(s: Seq<u8>) -> u32
    recommends
        s.len() == 4,
{
    ((s[0] as u32) << 24) | ((s[1] as u32) << 16) | ((s[2] as u32) << 8) | (s[3] as u32)
}

pub proof fn lemma_u32_be_round_trip(x: u32)
    ensures
        spec_u32_from_be_bytes(spec_u32_to_be_bytes(x)) == x,
{
    assert(((((x >> 24) & 0xff) as u8 as u32) << 24) | ((((x >> 16) & 0xff) as u8 as u32) << 16)
        | ((((x >> 8) & 0xff) as u8 as u32) << 8) | (((x & 0xff) as u8 as u32)) == x)
        by (bit_vector);
}

/// The eight bytes of `x`, most significant first.
pub open spec fn spec_u64_to_be_bytes(x: u64) -> Seq<u8> {
    seq![
        ((x >> 56) & 0xff) as u8,
        ((x >> 48) & 0xff) as u8,
        ((x >> 40) & 0xff) as u8,
        ((x >> 32) & 0xff) as u8,
        ((x >> 24) & 0xff) as u8,
        ((x >> 16) & 0xff) as u8,
        ((x >> 8) & 0xff) as u8,
        (x & 0xff) as u8,
    ]
}

/// The u64 read from eight bytes, most significant first.
pub open spec fn spec_u64_from_be_bytes(s: Seq<u8>) -> u64
    recommends
        s.len() == 8,
{
    ((s[0] as u64) << 56) | ((s[1] as u64) << 48) | ((s[2] as u64) << 40) | ((s[3] as u64) << 32)
        | ((s[4] as u64) << 24) | ((s[5] as u64) << 16) | ((s[6] as u64) << 8) | (s[7] as u64)
}

pub proof fn lemma_u64_be_round_trip(x: u64)
    ensures
        spec_u64_from_be_bytes(spec_u64_to_be_bytes(x)) == x,
{
    assert(((((x >> 56) & 0xff) as u8 as u64) << 56) | ((((x >> 48) & 0xff) as u8 as u64) << 48)
        | ((((x >> 40) & 0xff) as u8 as u64) << 40) | ((((x >> 32) & 0xff) as u8 as u64) << 32)
        | ((((x >> 24) & 0xff) as u8 as u64) << 24) | ((((x >> 16) & 0xff) as u8 as u64) << 16)
        | ((((x >> 8) & 0xff) as u8 as u64) << 8) | (((x & 0xff) as u8 as u64)) == x)
        by (bit_vector);
}

/// The sixteen bytes of `x`, most significant first.
pub open spec fn spec_u128_to_be_bytes(x: u128) -> Seq<u8> {
    seq![
        ((x >> 120) & 0xff) as u8,
        ((x >> 112) & 0xff) as u8,
        ((x >> 104) & 0xff) as u8,
        ((x >> 96) & 0xff) as u8,
        ((x >> 88) & 0xff) as u8,
        ((x >> 80) & 0xff) as u8,
        ((x >> 72) & 0xff) as u8,
        ((x >> 64) & 0xff) as u8,
        ((x >> 56) & 0xff) as u8,
        ((x >> 48) & 0xff) as u8,
        ((x >> 40) & 0xff) as u8,
        ((x >> 32) & 0xff) as u8,
        ((x >> 24) & 0xff) as u8,
        ((x >> 16) & 0xff) as u8,
        ((x >> 8) & 0xff) as u8,
        (x & 0xff) as u8,
    ]
}

/// The u128 read from sixteen bytes, most significant first.
pub open spec fn spec_u128_from_be_bytes(s: Seq<u8>) -> u128
    recommends
        s.len() == 16,
{
    ((s[0] as u128) << 120) | ((s[1] as u128) << 112) | ((s[2] as u128) << 104)
        | ((s[3] as u128) << 96) | ((s[4] as u128) << 88) | ((s[5] as u128) << 80)
        | ((s[6] as u128) << 72) | ((s[7] as u128) << 64) | ((s[8] as u128) << 56)
        | ((s[9] as u128) << 48) | ((s[10] as u128) << 40) | ((s[11] as u128) << 32)
        | ((s[12] as u128) << 24) | ((s[13] as u128) << 16) | ((s[14] as u128) << 8)
        | (s[15] as u128)
}

pub proof fn lemma_u128_be_round_trip(x: u128)
    ensures
        spec_u128_from_be_bytes(spec_u128_to_be_bytes(x)) == x,
{
    assert(((((x >> 120) & 0xff) as u8 as u128) << 120) | ((((x >> 112) & 0xff) as u8 as u128)
        << 112) | ((((x >> 104) & 0xff) as u8 as u128) << 104) | ((((x >> 96) & 0xff) as u8
        as u128) << 96) | ((((x >> 88) & 0xff) as u8 as u128) << 88) | ((((x >> 80) & 0xff) as u8
        as u128) << 80) | ((((x >> 72) & 0xff) as u8 as u128) << 72) | ((((x >> 64) & 0xff) as u8
        as u128) << 64) | ((((x >> 56) & 0xff) as u8 as u128) << 56) | ((((x >> 48) & 0xff) as u8
        as u128) << 48) | ((((x >> 40) & 0xff) as u8 as u128) << 40) | ((((x >> 32) & 0xff) as u8
        as u128) << 32) | ((((x >> 24) & 0xff) as u8 as u128) << 24) | ((((x >> 16) & 0xff) as u8
        as u128) << 16) | ((((x >> 8) & 0xff) as u8 as u128) << 8) | (((x & 0xff) as u8 as u128))
        == x) by (bit_vector);
}

/// Appends the four big-endian bytes of `x` to `out`.
pub fn push_u32_be(out: &mut Vec<u8>, x: u32)
    ensures
        final(out)@ =~= old(out)@ + spec_u32_to_be_bytes(x),
{
    proof {
        assert((x >> 24) & 0xff < 256 && (x >> 16) & 0xff < 256 && (x >> 8) & 0xff < 256 && x
            & 0xff < 256) by (bit_vector);
    }
    out.push(((x >> 24) & 0xff) as u8);
    out.push(((x >> 16) & 0xff) as u8);
    out.push(((x >> 8) & 0xff) as u8);
    out.push((x & 0xff) as u8);
}

/// Appends the eight big-endian bytes of `x` to `out`.
pub fn push_u64_be(out: &mut Vec<u8>, x: u64)
    ensures
        final(out)@ =~= old(out)@ + spec_u64_to_be_bytes(x),
{
    proof {
        assert((x >> 56) & 0xff < 256 && (x >> 48) & 0xff < 256 && (x >> 40) & 0xff < 256 && (x
            >> 32) & 0xff < 256 && (x >> 24) & 0xff < 256 && (x >> 16) & 0xff < 256 && (x >> 8)
            & 0xff < 256 && x & 0xff < 256) by (bit_vector);
    }
    out.push(((x >> 56) & 0xff) as u8);
    out.push(((x >> 48) & 0xff) as u8);
    out.push(((x >> 40) & 0xff) as u8);
    out.push(((x >> 32) & 0xff) as u8);
    out.push(((x >> 24) & 0xff) as u8);
    out.push(((x >> 16) & 0xff) as u8);
    out.push(((x >> 8) & 0xff) as u8);
    out.push((x & 0xff) as u8);
}

/// Appends the sixteen big-endian bytes of `x` to `out`.
pub fn push_u128_be(out: &mut Vec<u8>, x: u128)
    ensures
        final(out)@ =~= old(out)@ + spec_u128_to_be_bytes(x),
{
    proof {
        assert((x >> 120) & 0xff < 256 && (x >> 112) & 0xff < 256 && (x >> 104) & 0xff < 256 && (x
            >> 96) & 0xff < 256 && (x >> 88) & 0xff < 256 && (x >> 80) & 0xff < 256 && (x >> 72)
            & 0xff < 256 && (x >> 64) & 0xff < 256 && (x >> 56) & 0xff < 256 && (x >> 48) & 0xff
            < 256 && (x >> 40) & 0xff < 256 && (x >> 32) & 0xff < 256 && (x >> 24) & 0xff < 256
            && (x >> 16) & 0xff < 256 && (x >> 8) & 0xff < 256 && x & 0xff < 256) by (bit_vector);
    }
    out.push(((x >> 120) & 0xff) as u8);
    out.push(((x >> 112) & 0xff) as u8);
    out.push(((x >> 104) & 0xff) as u8);
    out.push(((x >> 96) & 0xff) as u8);
    out.push(((x >> 88) & 0xff) as u8);
    out.push(((x >> 80) & 0xff) as u8);
    out.push(((x >> 72) & 0xff) as u8);
    out.push(((x >> 64) & 0xff) as u8);
    out.push(((x >> 56) & 0xff) as u8);
    out.push(((x >> 48) & 0xff) as u8);
    out.push(((x >> 40) & 0xff) as u8);
    out.push(((x >> 32) & 0xff) as u8);
    out.push(((x >> 24) & 0xff) as u8);
    out.push(((x >> 16) & 0xff) as u8);
    out.push(((x >> 8) & 0xff) as u8);
    out.push((x & 0xff) as u8);
}

/// Reads a big-endian u32 from `b` at offset `start`.
pub fn read_u32_be(b: &Vec<u8>, start: usize) -> (r: u32)
    requires
        start + 4 <= b@.len(),
    ensures
        r == spec_u32_from_be_bytes(b@.subrange(start as int, start as int + 4)),
{
    // Pins the buffer length to a machine word, so the index sums below
    // stay within bounds.
    let _n: usize = b.len();
    let r = ((b[start] as u32) << 24) | ((b[start + 1] as u32) << 16) | ((b[start + 2] as u32)
        << 8) | (b[start + 3] as u32);
    proof {
        let s = b@.subrange(start as int, start as int + 4);
        assert(s[0] == b@[start as int] && s[1] == b@[start as int + 1] && s[2] == b@[start as int
            + 2] && s[3] == b@[start as int + 3]);
    }
    r
}

/// Reads a big-endian u64 from `b` at offset `start`.
pub fn read_u64_be(b: &Vec<u8>, start: usize) -> (r: u64)
    requires
        start + 8 <= b@.len(),
    ensures
        r == spec_u64_from_be_bytes(b@.subrange(start as int, start as int + 8)),
{
    // Pins the buffer length to a machine word, so the index sums below
    // stay within bounds.
    let _n: usize = b.len();
    let r = ((b[start] as u64) << 56) | ((b[start + 1] as u64) << 48) | ((b[start + 2] as u64)
        << 40) | ((b[start + 3] as u64) << 32) | ((b[start + 4] as u64) << 24) | ((b[start
        + 5] as u64) << 16) | ((b[start + 6] as u64) << 8) | (b[start + 7] as u64);
    proof {
        let s = b@.subrange(start as int, start as int + 8);
        assert(forall|i: int| 0 <= i < 8 ==> s[i] == b@[start as int + i]);
    }
    r
}

/// Reads a big-endian u128 from `b` at offset `start`.
pub fn read_u128_be(b: &Vec<u8>, start: usize) -> (r: u128)
    requires
        start + 16 <= b@.len(),
    ensures
        r == spec_u128_from_be_bytes(b@.subrange(start as int, start as int + 16)),
{
    // Pins the buffer length to a machine word, so the index sums below
    // stay within bounds.
    let _n: usize = b.len();
    let r = ((b[start] as u128) << 120) | ((b[start + 1] as u128) << 112) | ((b[start + 2] as u128)
        << 104) | ((b[start + 3] as u128) << 96) | ((b[start + 4] as u128) << 88) | ((b[start
        + 5] as u128) << 80) | ((b[start + 6] as u128) << 72) | ((b[start + 7] as u128) << 64) | ((
    b[start + 8] as u128) << 56) | ((b[start + 9] as u128) << 48) | ((b[start + 10] as u128) << 40)
        | ((b[start + 11] as u128) << 32) | ((b[start + 12] as u128) << 24) | ((b[start
        + 13] as u128) << 16) | ((b[start + 14] as u128) << 8) | (b[start + 15] as u128);
    proof {
        let s = b@.subrange(start as int, start as int + 16);
        assert(forall|i: int| 0 <= i < 16 ==> s[i] == b@[start as int + i]);
    }
    r
}

/// Copies `b[start..end]` into a fresh buffer.
pub fn sub_vec(b: &Vec<u8>, start: usize, end: usize) -> (r: Vec<u8>)
    requires
        start <= end,
        end <= b@.len(),
    ensures
        r@ =~= b@.subrange(start as int, end as int),
{
    let mut r: Vec<u8> = Vec::new();
    let mut i: usize = start;
    while i < end
        invariant
            start <= i <= end,
            end <= b@.len(),
            r@ =~= b@.subrange(start as int, i as int),
        decreases end - i,
    {
        r.push(b[i]);
        proof {
            assert(r@ =~= b@.subrange(start as int, i as int + 1));
        }
        i = i + 1;
    }
    r
}

/// Appends all of `src` to `dst`.
pub fn append_bytes(dst: &mut Vec<u8>, src: &Vec<u8>)
    ensures
        final(dst)@ =~= old(dst)@ + src@,
{
    let mut i: usize = 0;
    while i < src.len()
        invariant
            i <= src@.len(),
            dst@ =~= old(dst)@ + src@.subrange(0, i as int),
        decreases src@.len() - i,
    {
        dst.push(src[i]);
        proof {
            assert(old(dst)@ + src@.subrange(0, i as int + 1) =~= (old(dst)@ + src@.subrange(
                0,
                i as int,
            )).push(src@[i as int]));
        }
        i = i + 1;
    }
    proof {
        assert(src@.subrange(0, src@.len() as int) =~= src@);
    }
}

} // verus!
