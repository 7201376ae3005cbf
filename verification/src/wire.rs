//! Big-endian byte-level encoding helpers shared by the codecs.

use vstd::prelude::*;

verus! {

/// The two big-endian bytes of a 16-bit value.
pub open spec fn be16_bytes(x: u16) -> Seq<u8> {
    seq![(x / 256) as u8, (x % 256) as u8]
}

/// The 16-bit value held by two big-endian bytes.
pub open spec fn be16_of(b0: u8, b1: u8) -> u16 {
    (b0 * 256 + b1) as u16
}

/// The four big-endian bytes of a 32-bit value.
pub open spec fn be32_bytes(x: u32) -> Seq<u8> {
    be16_bytes((x / 0x1_0000) as u16) + be16_bytes((x % 0x1_0000) as u16)
}

/// The 32-bit value held by four big-endian bytes.
pub open spec fn be32_of(b0: u8, b1: u8, b2: u8, b3: u8) -> u32 {
    (be16_of(b0, b1) * 0x1_0000 + be16_of(b2, b3)) as u32
}

/// Reading back the two bytes of a 16-bit value yields the value.
pub proof fn lemma_be16_round_trip(x: u16)
    ensures
        be16_bytes(x).len() == 2,
        be16_of(be16_bytes(x)[0], be16_bytes(x)[1]) == x,
{
    vstd::arithmetic::div_mod::lemma_fundamental_div_mod(x as int, 256);
}

/// Reading back the four bytes of a 32-bit value yields the value.
pub proof fn lemma_be32_round_trip(x: u32)
    ensures
        be32_bytes(x).len() == 4,
        be32_of(be32_bytes(x)[0], be32_bytes(x)[1], be32_bytes(x)[2], be32_bytes(x)[3]) == x,
{
    lemma_be16_round_trip((x / 0x1_0000) as u16);
    lemma_be16_round_trip((x % 0x1_0000) as u16);
    vstd::arithmetic::div_mod::lemma_fundamental_div_mod(x as int, 0x1_0000);
}

/// Append the two big-endian bytes of `x` to `out`.
pub fn push_be16(out: &mut Vec<u8>, x: u16)
    ensures
        final(out)@ == old(out)@ + be16_bytes(x),
{
    out.push((x / 256) as u8);
    out.push((x % 256) as u8);
    assert(out@ =~= old(out)@ + be16_bytes(x));
}

/// Append the four big-endian bytes of `x` to `out`.
pub fn push_be32(out: &mut Vec<u8>, x: u32)
    ensures
        final(out)@ == old(out)@ + be32_bytes(x),
{
    push_be16(out, (x / 0x1_0000) as u16);
    push_be16(out, (x % 0x1_0000) as u16);
    assert(out@ =~= old(out)@ + be32_bytes(x));
}

/// Read a big-endian 16-bit value at `pos`.
pub fn read_be16(b: &[u8], pos: usize) -> (r: u16)
    requires
        pos + 2 <= b@.len(),
    ensures
        r == be16_of(b@[pos as int], b@[pos + 1]),
{
    let b0 = b[pos];
    let b1 = b[pos + 1];
    (b0 as u16) * 256 + (b1 as u16)
}

/// Read a big-endian 32-bit value at `pos`.
pub fn read_be32(b: &[u8], pos: usize) -> (r: u32)
    requires
        pos + 4 <= b@.len(),
    ensures
        r == be32_of(b@[pos as int], b@[pos + 1], b@[pos + 2], b@[pos + 3]),
{
    let n = b.len();
    assert(pos + 2 <= n);
    let hi = read_be16(b, pos);
    let lo = read_be16(b, pos + 2);
    (hi as u32) * 0x1_0000 + (lo as u32)
}

/// Append a byte slice to `out`.
pub fn push_bytes(out: &mut Vec<u8>, s: &[u8])
    ensures
        final(out)@ == old(out)@ + s@,
{
    out.extend_from_slice(s);
}

/// Copy a byte vector.
pub fn copy_bytes(v: &Vec<u8>) -> (r: Vec<u8>)
    ensures
        r@ == v@,
{
    let mut r: Vec<u8> = Vec::new();
    r.extend_from_slice(v.as_slice());
    r
}

/// Whether two byte strings hold the same bytes.
pub fn bytes_eq(a: &[u8], b: &[u8]) -> (r: bool)
    ensures
        r == (a@ == b@),
{
    if a.len() != b.len() {
        assert(a@ != b@);
        return false;
    }
    let n = a.len();
    let mut i: usize = 0;
    while i < n
        invariant
            i <= n,
            n == a@.len() == b@.len(),
            forall|j: int| 0 <= j < i ==> a@[j] == b@[j],
        decreases n - i,
    {
        if a[i] != b[i] {
            return false;
        }
        i = i + 1;
    }
    assert(a@ =~= b@);
    true
}

/// Pushing an element extends the element-wise view of a vector of
/// byte vectors by the element's view.
pub proof fn lemma_deep_view_push(prev: Vec<Vec<u8>>, post: Vec<Vec<u8>>, c: Vec<u8>)
    requires
        post@ == prev@.push(c),
    ensures
        post.deep_view() == prev.deep_view().push(c@),
{
    let pre = prev.deep_view();
    let after = post.deep_view();
    assert forall|i: int| 0 <= i < after.len() implies after[i] == pre.push(c@)[i] by {
        assert(after[i] == post@[i].deep_view());
        if i < pre.len() {
            assert(post@[i] == prev@[i]);
            assert(pre[i] == prev@[i].deep_view());
        } else {
            assert(post@[i] == c);
        }
    }
    assert(after =~= pre.push(c@));
}

/// Copy the bytes of `b` between `from` and `to` into a fresh vector.
pub fn bytes_range(b: &[u8], from: usize, to: usize) -> (r: Vec<u8>)
    requires
        from <= to <= b@.len(),
    ensures
        r@ == b@.subrange(from as int, to as int),
{
    let mut out: Vec<u8> = Vec::new();
    let mut i: usize = from;
    while i < to
        invariant
            from <= i <= to <= b@.len(),
            out@ == b@.subrange(from as int, i as int),
        decreases to - i,
    {
        out.push(b[i]);
        assert(out@ =~= b@.subrange(from as int, i + 1));
        i = i + 1;
    }
    out
}

} // verus!
