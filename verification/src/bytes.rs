use vstd::prelude::*;

verus! {

/// The four little-endian bytes of a 32-bit count.
pub open spec fn spec_u32_le(n: u32) -> Seq<u8> {
    seq![
        (n & 0xff) as u8,
        ((n >> 8) & 0xff) as u8,
        ((n >> 16) & 0xff) as u8,
        ((n >> 24) & 0xff) as u8,
    ]
}

/// The 32-bit value read from four little-endian bytes.
pub open spec fn spec_u32_from_le(b0: u8, b1: u8, b2: u8, b3: u8) -> u32 {
    (b0 as u32) | ((b1 as u32) << 8) | ((b2 as u32) << 16) | ((b3 as u32) << 24)
}

/// Reading back the four little-endian bytes of a count recovers the count.
pub proof fn lemma_u32_le_round_trip(n: u32)
    ensures
        spec_u32_from_le(
            spec_u32_le(n)[0],
            spec_u32_le(n)[1],
            spec_u32_le(n)[2],
            spec_u32_le(n)[3],
        ) == n,
{
    assert((n & 0xff) as u8 as u32 | (((n >> 8) & 0xff) as u8 as u32) << 8
        | (((n >> 16) & 0xff) as u8 as u32) << 16 | (((n >> 24) & 0xff) as u8 as u32) << 24
        == n) by (bit_vector);
}

/// Appends the four little-endian bytes of `n` to `dst`.
pub fn push_u32_le(dst: &mut Vec<u8>, n: u32)
    ensures
        final(dst)@ == old(dst)@ + spec_u32_le(n),
{
    dst.push((n & 0xff) as u8);
    dst.push(((n >> 8) & 0xff) as u8);
    dst.push(((n >> 16) & 0xff) as u8);
    dst.push(((n >> 24) & 0xff) as u8);
    assert(dst@ =~= old(dst)@ + spec_u32_le(n));
}

/// Reads the 32-bit count stored little-endian at `v[at .. at + 4]`.
pub fn read_u32_le(v: &Vec<u8>, at: usize) -> (r: u32)
    requires
        at + 4 <= v@.len(),
    ensures
        r == spec_u32_from_le(v@[at as int], v@[at + 1], v@[at + 2], v@[at + 3]),
{
    let l = v.len();
    assert(at + 4 <= l);
    let b0 = v[at];
    let b1 = v[at + 1];
    let b2 = v[at + 2];
    let b3 = v[at + 3];
    (b0 as u32) | ((b1 as u32) << 8) | ((b2 as u32) << 16) | ((b3 as u32) << 24)
}

/// Copies `v[start .. end]` into a fresh vector.
pub fn subvec(v: &Vec<u8>, start: usize, end: usize) -> (r: Vec<u8>)
    requires
        start <= end <= v@.len(),
    ensures
        r@ == v@.subrange(start as int, end as int),
{
    let mut out: Vec<u8> = Vec::new();
    let mut i: usize = start;
    while i < end
        invariant
            start <= i <= end <= v@.len(),
            out@ == v@.subrange(start as int, i as int),
        decreases end - i,
    {
        out.push(v[i]);
        i = i + 1;
        assert(out@ =~= v@.subrange(start as int, i as int));
    }
    out
}

/// Copies a whole vector.
pub fn copy_bytes(v: &Vec<u8>) -> (r: Vec<u8>)
    ensures
        r@ == v@,
{
    let r = subvec(v, 0, v.len());
    assert(r@ =~= v@);
    r
}

/// Appends a copy of `src` to `dst`.
pub fn push_bytes(dst: &mut Vec<u8>, src: &Vec<u8>)
    ensures
        final(dst)@ == old(dst)@ + src@,
{
    let mut i: usize = 0;
    while i < src.len()
        invariant
            i <= src@.len(),
            dst@ == old(dst)@ + src@.subrange(0, i as int),
        decreases src@.len() - i,
    {
        dst.push(src[i]);
        i = i + 1;
        assert(dst@ =~= old(dst)@ + src@.subrange(0, i as int));
    }
    assert(dst@ =~= old(dst)@ + src@);
}

/// Compares two byte vectors for equality of contents.
pub fn bytes_eq(a: &Vec<u8>, b: &Vec<u8>) -> (r: bool)
    ensures
        r == (a@ == b@),
{
    if a.len() != b.len() {
        return false;
    }
    let mut i: usize = 0;
    while i < a.len()
        invariant
            a@.len() == b@.len(),
            i <= a@.len(),
            forall|j: int| 0 <= j < i ==> a@[j] == b@[j],
        decreases a@.len() - i,
    {
        if a[i] != b[i] {
            return false;
        }
        i = i + 1;
    }
    proof {
        assert(a@ =~= b@);
    }
    true
}

} // verus!
