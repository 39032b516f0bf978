//! Little-endian scalar encoding and small byte-buffer helpers shared by the
//! canonical MAC-input encoder and the transport encoder.

use vstd::prelude::*;

verus! {

broadcast use vstd::seq::group_seq_axioms;

/// The two-byte little-endian encoding of `x`.
pub open spec fn u16_le(x: u16) -> Seq<u8> {
    seq![(x & 0xff) as u8, ((x >> 8) & 0xff) as u8]
}

/// The u16 whose little-endian encoding is `[b0, b1]`.
pub open spec fn u16_from_pair(b0: u8, b1: u8) -> u16 {
    (b0 as u16) | ((b1 as u16) << 8)
}

/// The four-byte little-endian encoding of `x`.
pub open spec fn u32_le(x: u32) -> Seq<u8> {
    seq![
        (x & 0xff) as u8,
        ((x >> 8) & 0xff) as u8,
        ((x >> 16) & 0xff) as u8,
        ((x >> 24) & 0xff) as u8,
    ]
}

/// The u32 whose little-endian encoding is `[b0, b1, b2, b3]`.
pub open spec fn u32_from_quad(b0: u8, b1: u8, b2: u8, b3: u8) -> u32 {
    (b0 as u32) | ((b1 as u32) << 8) | ((b2 as u32) << 16) | ((b3 as u32) << 24)
}

/// Decoding the two-byte encoding of `x` gives back `x`.
pub proof fn lemma_u16_le_from_pair(x: u16)
    ensures
        u16_from_pair(u16_le(x)[0], u16_le(x)[1]) == x,
{
    assert(x & 0xff < 256 && (x >> 8) & 0xff < 256) by (bit_vector);
    assert(((x & 0xff) as u8) as u16 == x & 0xff) by (bit_vector);
    assert((((x >> 8) & 0xff) as u8) as u16 == (x >> 8) & 0xff) by (bit_vector);
    assert((x & 0xff) | (((x >> 8) & 0xff) << 8) == x) by (bit_vector);
}

/// Encoding the u16 read from a byte pair gives back that pair.
pub proof fn lemma_u16_pair_le(b0: u8, b1: u8)
    ensures
        u16_le(u16_from_pair(b0, b1)) =~= seq![b0, b1],
{
    assert((((b0 as u16) | ((b1 as u16) << 8)) & 0xff) as u8 == b0) by (bit_vector);
    assert(((((b0 as u16) | ((b1 as u16) << 8)) >> 8) & 0xff) as u8 == b1) by (bit_vector);
}

/// Decoding the four-byte encoding of `x` gives back `x`.
pub proof fn lemma_u32_le_from_quad(x: u32)
    ensures
        u32_from_quad(u32_le(x)[0], u32_le(x)[1], u32_le(x)[2], u32_le(x)[3]) == x,
{
    assert(((x & 0xff) as u8) as u32 == x & 0xff) by (bit_vector);
    assert((((x >> 8) & 0xff) as u8) as u32 == (x >> 8) & 0xff) by (bit_vector);
    assert((((x >> 16) & 0xff) as u8) as u32 == (x >> 16) & 0xff) by (bit_vector);
    assert((((x >> 24) & 0xff) as u8) as u32 == (x >> 24) & 0xff) by (bit_vector);
    assert((x & 0xff) | (((x >> 8) & 0xff) << 8) | (((x >> 16) & 0xff) << 16) | (((x >> 24)
        & 0xff) << 24) == x) by (bit_vector);
}

/// Encoding the u32 read from four bytes gives back those bytes.
pub proof fn lemma_u32_quad_le(b0: u8, b1: u8, b2: u8, b3: u8)
    ensures
        u32_le(u32_from_quad(b0, b1, b2, b3)) =~= seq![b0, b1, b2, b3],
{
    assert((((b0 as u32) | ((b1 as u32) << 8) | ((b2 as u32) << 16) | ((b3 as u32) << 24)) & 0xff)
        as u8 == b0) by (bit_vector);
    assert(((((b0 as u32) | ((b1 as u32) << 8) | ((b2 as u32) << 16) | ((b3 as u32) << 24)) >> 8)
        & 0xff) as u8 == b1) by (bit_vector);
    assert(((((b0 as u32) | ((b1 as u32) << 8) | ((b2 as u32) << 16) | ((b3 as u32) << 24)) >> 16)
        & 0xff) as u8 == b2) by (bit_vector);
    assert(((((b0 as u32) | ((b1 as u32) << 8) | ((b2 as u32) << 16) | ((b3 as u32) << 24)) >> 24)
        & 0xff) as u8 == b3) by (bit_vector);
}

/// Two equal concatenations whose left parts have equal length have equal
/// parts.
pub proof fn lemma_concat_parts_equal(a1: Seq<u8>, b1: Seq<u8>, a2: Seq<u8>, b2: Seq<u8>)
    requires
        a1.len() == a2.len(),
        a1 + b1 == a2 + b2,
    ensures
        a1 == a2,
        b1 == b2,
{
    assert((a1 + b1).len() == (a2 + b2).len());
    assert((a1 + b1).len() == a1.len() + b1.len());
    assert((a2 + b2).len() == a2.len() + b2.len());
    assert(b1.len() == b2.len());
    assert(a1 =~= a2) by {
        assert forall|i: int| 0 <= i < a1.len() implies a1[i] == a2[i] by {
            assert((a1 + b1)[i] == a1[i]);
            assert((a2 + b2)[i] == a2[i]);
        }
    }
    assert(b1 =~= b2) by {
        assert forall|i: int| 0 <= i < b1.len() implies b1[i] == b2[i] by {
            assert((a1 + b1)[a1.len() + i] == b1[i]);
            assert((a2 + b2)[a2.len() + i] == b2[i]);
        }
    }
}

/// No two u16 values share a little-endian encoding.
pub proof fn lemma_u16_le_injective(x: u16, y: u16)
    requires
        u16_le(x) == u16_le(y),
    ensures
        x == y,
{
    assert(u16_le(x)[0] == u16_le(y)[0]);
    assert(u16_le(x)[1] == u16_le(y)[1]);
    assert(((x & 0xff) as u8 == (y & 0xff) as u8 && ((x >> 8) & 0xff) as u8 == ((y >> 8) & 0xff)
        as u8) ==> x == y) by (bit_vector);
}

/// Appends `s` to `out`, stated as sequence concatenation.
pub fn append_bytes(out: &mut Vec<u8>, s: &[u8])
    ensures
        final(out)@ == old(out)@ + s@,
{
    out.extend_from_slice(s);
    proof {
        assert(out@ =~= old(out)@ + s@);
    }
}

/// Appends the two-byte little-endian encoding of `x` to `out`.
pub fn push_u16_le(out: &mut Vec<u8>, x: u16)
    ensures
        final(out)@ == old(out)@ + u16_le(x),
{
    out.push((x & 0xff) as u8);
    out.push(((x >> 8) & 0xff) as u8);
    proof {
        assert(out@ =~= old(out)@ + u16_le(x));
    }
}

/// Appends the four-byte little-endian encoding of `x` to `out`.
pub fn push_u32_le(out: &mut Vec<u8>, x: u32)
    ensures
        final(out)@ == old(out)@ + u32_le(x),
{
    out.push((x & 0xff) as u8);
    out.push(((x >> 8) & 0xff) as u8);
    out.push(((x >> 16) & 0xff) as u8);
    out.push(((x >> 24) & 0xff) as u8);
    proof {
        assert(out@ =~= old(out)@ + u32_le(x));
    }
}

/// Reads the u16 stored little-endian at `off`.
pub fn read_u16_le(b: &Vec<u8>, off: usize) -> (r: u16)
    requires
        off + 2 <= b@.len(),
    ensures
        r == u16_from_pair(b@[off as int], b@[off as int + 1]),
{
    let n: usize = b.len();
    proof {
        assert(off + 1 < n);
    }
    let lo = b[off];
    let hi = b[off + 1];
    (lo as u16) | ((hi as u16) << 8)
}

/// Reads the u32 stored little-endian at `off`.
pub fn read_u32_le(b: &Vec<u8>, off: usize) -> (r: u32)
    requires
        off + 4 <= b@.len(),
    ensures
        r == u32_from_quad(
            b@[off as int],
            b@[off as int + 1],
            b@[off as int + 2],
            b@[off as int + 3],
        ),
{
    let n: usize = b.len();
    proof {
        assert(off + 3 < n);
    }
    let b0 = b[off];
    let b1 = b[off + 1];
    let b2 = b[off + 2];
    let b3 = b[off + 3];
    (b0 as u32) | ((b1 as u32) << 8) | ((b2 as u32) << 16) | ((b3 as u32) << 24)
}

/// Copies the byte range `[i, j)` of `b` into a fresh vector.
pub fn bytes_range(b: &Vec<u8>, i: usize, j: usize) -> (r: Vec<u8>)
    requires
        i <= j,
        j <= b@.len(),
    ensures
        r@ == b@.subrange(i as int, j as int),
{
    vstd::slice::slice_to_vec(vstd::slice::slice_subrange(b.as_slice(), i, j))
}

/// A vector of `n` zero bytes.
pub fn zero_vec(n: usize) -> (r: Vec<u8>)
    ensures
        r@.len() == n,
        forall|i: int| 0 <= i < n ==> r@[i] == 0u8,
{
    let mut v: Vec<u8> = Vec::new();
    let mut i: usize = 0;
    while i < n
        invariant
            i <= n,
            v@.len() == i,
            forall|j: int| 0 <= j < i ==> v@[j] == 0u8,
        decreases n - i,
    {
        v.push(0u8);
        i = i + 1;
    }
    v
}

} // verus!
