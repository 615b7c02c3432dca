//! Little-endian and compact-length byte encodings: the canonical
//! serialization that feeds the proposal hash.

use vstd::prelude::*;

verus! {

/// The two little-endian bytes of a 16-bit word.
pub open spec fn u16_le(x: u16) -> Seq<u8> {
    seq![(x & 0xff) as u8, ((x >> 8) & 0xff) as u8]
}

/// The four little-endian bytes of a 32-bit word.
pub open spec fn u32_le(x: u32) -> Seq<u8> {
    seq![
        (x & 0xff) as u8,
        ((x >> 8) & 0xff) as u8,
        ((x >> 16) & 0xff) as u8,
        ((x >> 24) & 0xff) as u8,
    ]
}

/// The eight little-endian bytes of a 64-bit word.
pub open spec fn u64_le(x: u64) -> Seq<u8> {
    seq![
        (x & 0xff) as u8,
        ((x >> 8) & 0xff) as u8,
        ((x >> 16) & 0xff) as u8,
        ((x >> 24) & 0xff) as u8,
        ((x >> 32) & 0xff) as u8,
        ((x >> 40) & 0xff) as u8,
        ((x >> 48) & 0xff) as u8,
        ((x >> 56) & 0xff) as u8,
    ]
}

/// The sixteen little-endian bytes of a 128-bit word.
pub open spec fn u128_le(x: u128) -> Seq<u8> {
    seq![
        (x & 0xff) as u8,
        ((x >> 8) & 0xff) as u8,
        ((x >> 16) & 0xff) as u8,
        ((x >> 24) & 0xff) as u8,
        ((x >> 32) & 0xff) as u8,
        ((x >> 40) & 0xff) as u8,
        ((x >> 48) & 0xff) as u8,
        ((x >> 56) & 0xff) as u8,
        ((x >> 64) & 0xff) as u8,
        ((x >> 72) & 0xff) as u8,
        ((x >> 80) & 0xff) as u8,
        ((x >> 88) & 0xff) as u8,
        ((x >> 96) & 0xff) as u8,
        ((x >> 104) & 0xff) as u8,
        ((x >> 112) & 0xff) as u8,
        ((x >> 120) & 0xff) as u8,
    ]
}

/// The compact (variable-width) encoding of a 32-bit length: one byte below
/// 2^6, two bytes below 2^14, four bytes below 2^30, else a marker byte
/// followed by the four little-endian bytes of the value. The low two bits
/// of the first byte select the width.
pub open spec fn compact_u32(n: u32) -> Seq<u8> {
    if n < 64 {
        seq![(n << 2) as u8]
    } else if n < 16384 {
        u16_le((((n << 2) | 1) & 0xffff) as u16)
    } else if n < 1073741824 {
        u32_le((n << 2) | 2)
    } else {
        seq![3u8] + u32_le(n)
    }
}

/// The 64-bit word read from eight bytes in little-endian order.
pub open spec fn le64_of(b: Seq<u8>) -> u64
    recommends
        b.len() == 8,
{
    ((b[0] as u64) | ((b[1] as u64) << 8) | ((b[2] as u64) << 16) | ((b[3] as u64) << 24) | (
    (b[4] as u64) << 32) | ((b[5] as u64) << 40) | ((b[6] as u64) << 48) | ((b[7] as u64) << 56))
        as u64
}

/// Two 32-bit words with the same little-endian bytes are equal.
pub proof fn lemma_u32_le_injective(x: u32, y: u32)
    requires
        u32_le(x) == u32_le(y),
    ensures
        x == y,
{
    assert(((x & 0xff) as u8 == (y & 0xff) as u8 && ((x >> 8) & 0xff) as u8 == ((y >> 8)
        & 0xff) as u8 && ((x >> 16) & 0xff) as u8 == ((y >> 16) & 0xff) as u8 && ((x >> 24)
        & 0xff) as u8 == ((y >> 24) & 0xff) as u8) ==> x == y) by (bit_vector);
    assert(u32_le(x)[0] == u32_le(y)[0]);
    assert(u32_le(x)[1] == u32_le(y)[1]);
    assert(u32_le(x)[2] == u32_le(y)[2]);
    assert(u32_le(x)[3] == u32_le(y)[3]);
}

/// Two 64-bit words with the same little-endian bytes are equal.
pub proof fn lemma_u64_le_injective(x: u64, y: u64)
    requires
        u64_le(x) == u64_le(y),
    ensures
        x == y,
{
    assert(((x & 0xff) as u8 == (y & 0xff) as u8 && ((x >> 8) & 0xff) as u8 == ((y >> 8)
        & 0xff) as u8 && ((x >> 16) & 0xff) as u8 == ((y >> 16) & 0xff) as u8 && ((x >> 24)
        & 0xff) as u8 == ((y >> 24) & 0xff) as u8 && ((x >> 32) & 0xff) as u8 == ((y >> 32)
        & 0xff) as u8 && ((x >> 40) & 0xff) as u8 == ((y >> 40) & 0xff) as u8 && ((x >> 48)
        & 0xff) as u8 == ((y >> 48) & 0xff) as u8 && ((x >> 56) & 0xff) as u8 == ((y >> 56)
        & 0xff) as u8) ==> x == y) by (bit_vector);
    assert(u64_le(x)[0] == u64_le(y)[0]);
    assert(u64_le(x)[1] == u64_le(y)[1]);
    assert(u64_le(x)[2] == u64_le(y)[2]);
    assert(u64_le(x)[3] == u64_le(y)[3]);
    assert(u64_le(x)[4] == u64_le(y)[4]);
    assert(u64_le(x)[5] == u64_le(y)[5]);
    assert(u64_le(x)[6] == u64_le(y)[6]);
    assert(u64_le(x)[7] == u64_le(y)[7]);
}

/// Two 128-bit words with the same little-endian bytes are equal.
pub proof fn lemma_u128_le_injective(x: u128, y: u128)
    requires
        u128_le(x) == u128_le(y),
    ensures
        x == y,
{
    assert(((x & 0xff) as u8 == (y & 0xff) as u8 && ((x >> 8) & 0xff) as u8 == ((y >> 8)
        & 0xff) as u8 && ((x >> 16) & 0xff) as u8 == ((y >> 16) & 0xff) as u8 && ((x >> 24)
        & 0xff) as u8 == ((y >> 24) & 0xff) as u8 && ((x >> 32) & 0xff) as u8 == ((y >> 32)
        & 0xff) as u8 && ((x >> 40) & 0xff) as u8 == ((y >> 40) & 0xff) as u8 && ((x >> 48)
        & 0xff) as u8 == ((y >> 48) & 0xff) as u8 && ((x >> 56) & 0xff) as u8 == ((y >> 56)
        & 0xff) as u8 && ((x >> 64) & 0xff) as u8 == ((y >> 64) & 0xff) as u8 && ((x >> 72)
        & 0xff) as u8 == ((y >> 72) & 0xff) as u8 && ((x >> 80) & 0xff) as u8 == ((y >> 80)
        & 0xff) as u8 && ((x >> 88) & 0xff) as u8 == ((y >> 88) & 0xff) as u8 && ((x >> 96)
        & 0xff) as u8 == ((y >> 96) & 0xff) as u8 && ((x >> 104) & 0xff) as u8 == ((y >> 104)
        & 0xff) as u8 && ((x >> 112) & 0xff) as u8 == ((y >> 112) & 0xff) as u8 && ((x >> 120)
        & 0xff) as u8 == ((y >> 120) & 0xff) as u8) ==> x == y) by (bit_vector);
    assert(u128_le(x)[0] == u128_le(y)[0]);
    assert(u128_le(x)[1] == u128_le(y)[1]);
    assert(u128_le(x)[2] == u128_le(y)[2]);
    assert(u128_le(x)[3] == u128_le(y)[3]);
    assert(u128_le(x)[4] == u128_le(y)[4]);
    assert(u128_le(x)[5] == u128_le(y)[5]);
    assert(u128_le(x)[6] == u128_le(y)[6]);
    assert(u128_le(x)[7] == u128_le(y)[7]);
    assert(u128_le(x)[8] == u128_le(y)[8]);
    assert(u128_le(x)[9] == u128_le(y)[9]);
    assert(u128_le(x)[10] == u128_le(y)[10]);
    assert(u128_le(x)[11] == u128_le(y)[11]);
    assert(u128_le(x)[12] == u128_le(y)[12]);
    assert(u128_le(x)[13] == u128_le(y)[13]);
    assert(u128_le(x)[14] == u128_le(y)[14]);
    assert(u128_le(x)[15] == u128_le(y)[15]);
}

/// The low two bits of a compact encoding's first byte name its width, so
/// two compact encodings that begin with the same byte have the same
/// length.
pub proof fn lemma_compact_same_width(n: u32, m: u32)
    requires
        compact_u32(n)[0] == compact_u32(m)[0],
    ensures
        compact_u32(n).len() == compact_u32(m).len(),
{
    lemma_compact_mode_bits(n);
    lemma_compact_mode_bits(m);
}

/// The low two bits of a compact encoding's first byte name its mode.
proof fn lemma_compact_mode_bits(n: u32)
    ensures
        n < 64 ==> (compact_u32(n)[0] & 3) == 0 && compact_u32(n).len() == 1,
        64 <= n < 16384 ==> (compact_u32(n)[0] & 3) == 1 && compact_u32(n).len() == 2,
        16384 <= n < 1073741824 ==> (compact_u32(n)[0] & 3) == 2 && compact_u32(n).len() == 4,
        n >= 1073741824 ==> (compact_u32(n)[0] & 3) == 3 && compact_u32(n).len() == 5,
{
    if n < 64 {
        assert(n < 64 ==> (((n << 2) as u8) & 3) == 0) by (bit_vector);
    } else if n < 16384 {
        let w: u16 = (((n << 2) | 1) & 0xffff) as u16;
        assert(n < 16384 ==> (((((n << 2) | 1) & 0xffff) as u16 & 0xff) as u8 & 3) == 1)
            by (bit_vector);
        assert(compact_u32(n)[0] == ((w & 0xff) as u8));
    } else if n < 1073741824 {
        let w: u32 = (n << 2) | 2;
        assert((((((n as u32) << 2) | 2) & 0xff) as u8 & 3) == 2) by (bit_vector);
        assert(compact_u32(n)[0] == ((w & 0xff) as u8));
    } else {
        assert(compact_u32(n)[0] == 3u8);
        assert((3u8 & 3) == 3) by (bit_vector);
    }
}

/// Appends the four little-endian bytes of `x` to `dst`.
pub fn push_u32_le(dst: &mut Vec<u8>, x: u32)
    ensures
        final(dst)@ == old(dst)@ + u32_le(x),
{
    dst.push((x & 0xff) as u8);
    dst.push(((x >> 8) & 0xff) as u8);
    dst.push(((x >> 16) & 0xff) as u8);
    dst.push(((x >> 24) & 0xff) as u8);
    assert(dst@ =~= old(dst)@ + u32_le(x));
}

/// Appends the eight little-endian bytes of `x` to `dst`.
pub fn push_u64_le(dst: &mut Vec<u8>, x: u64)
    ensures
        final(dst)@ == old(dst)@ + u64_le(x),
{
    dst.push((x & 0xff) as u8);
    dst.push(((x >> 8) & 0xff) as u8);
    dst.push(((x >> 16) & 0xff) as u8);
    dst.push(((x >> 24) & 0xff) as u8);
    dst.push(((x >> 32) & 0xff) as u8);
    dst.push(((x >> 40) & 0xff) as u8);
    dst.push(((x >> 48) & 0xff) as u8);
    dst.push(((x >> 56) & 0xff) as u8);
    assert(dst@ =~= old(dst)@ + u64_le(x));
}

/// Appends the sixteen little-endian bytes of `x` to `dst`.
pub fn push_u128_le(dst: &mut Vec<u8>, x: u128)
    ensures
        final(dst)@ == old(dst)@ + u128_le(x),
{
    dst.push((x & 0xff) as u8);
    dst.push(((x >> 8) & 0xff) as u8);
    dst.push(((x >> 16) & 0xff) as u8);
    dst.push(((x >> 24) & 0xff) as u8);
    dst.push(((x >> 32) & 0xff) as u8);
    dst.push(((x >> 40) & 0xff) as u8);
    dst.push(((x >> 48) & 0xff) as u8);
    dst.push(((x >> 56) & 0xff) as u8);
    dst.push(((x >> 64) & 0xff) as u8);
    dst.push(((x >> 72) & 0xff) as u8);
    dst.push(((x >> 80) & 0xff) as u8);
    dst.push(((x >> 88) & 0xff) as u8);
    dst.push(((x >> 96) & 0xff) as u8);
    dst.push(((x >> 104) & 0xff) as u8);
    dst.push(((x >> 112) & 0xff) as u8);
    dst.push(((x >> 120) & 0xff) as u8);
    assert(dst@ =~= old(dst)@ + u128_le(x));
}

/// Appends the compact encoding of `n` to `dst`.
pub fn push_compact_u32(dst: &mut Vec<u8>, n: u32)
    ensures
        final(dst)@ == old(dst)@ + compact_u32(n),
{
    if n < 64 {
        dst.push((n << 2) as u8);
    } else if n < 16384 {
        let w: u16 = (((n << 2) | 1) & 0xffff) as u16;
        dst.push((w & 0xff) as u8);
        dst.push(((w >> 8) & 0xff) as u8);
    } else if n < 1073741824 {
        push_u32_le(dst, (n << 2) | 2);
    } else {
        dst.push(3u8);
        push_u32_le(dst, n);
    }
    assert(dst@ =~= old(dst)@ + compact_u32(n));
}

/// Appends a copy of the bytes in `src` to `dst`.
pub fn append_bytes(dst: &mut Vec<u8>, src: &[u8])
    ensures
        final(dst)@ == old(dst)@ + src@,
{
    let mut i: usize = 0;
    while i < src.len()
        invariant
            i <= src@.len(),
            dst@ == old(dst)@ + src@.subrange(0, i as int),
        decreases src@.len() - i,
    {
        dst.push(src[i]);
        i = i + 1;
        assert(dst@ =~= old(dst)@ + src@.subrange(0, i as int));
    }
    assert(dst@ =~= old(dst)@ + src@);
}

/// Reads the 64-bit little-endian word at offset `off` of `v`.
pub fn read_le64(v: &Vec<u8>, off: usize) -> (r: u64)
    requires
        off + 8 <= v@.len(),
    ensures
        r == le64_of(v@.subrange(off as int, off + 8)),
{
    let len: usize = v.len();
    assert(off + 8 <= len);
    let r: u64 = (v[off] as u64) | ((v[off + 1] as u64) << 8) | ((v[off + 2] as u64) << 16) | ((v[off
        + 3] as u64) << 24) | ((v[off + 4] as u64) << 32) | ((v[off + 5] as u64) << 40) | ((v[off
        + 6] as u64) << 48) | ((v[off + 7] as u64) << 56);
    proof {
        let b = v@.subrange(off as int, off + 8);
        assert(b[0] == v@[off as int]);
        assert(b[1] == v@[off + 1]);
        assert(b[2] == v@[off + 2]);
        assert(b[3] == v@[off + 3]);
        assert(b[4] == v@[off + 4]);
        assert(b[5] == v@[off + 5]);
        assert(b[6] == v@[off + 6]);
        assert(b[7] == v@[off + 7]);
    }
    r
}

} // verus!
