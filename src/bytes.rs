use vstd::prelude::*;

verus! {

/// Compares two 32-byte arrays byte by byte.
pub fn bytes32_equal(a: &[u8; 32], b: &[u8; 32]) -> (r: bool)
    ensures
        r == (*a == *b),
{
    let mut i: usize = 0;
    while i < 32
        invariant
            0 <= i <= 32,
            forall|j: int| 0 <= j < i ==> a@[j] == b@[j],
        decreases 32 - i,
    {
        if a[i] != b[i] {
            assert(a@ != b@);
            return false;
        }
        i = i + 1;
    }
    proof {
        assert(a@ =~= b@);
        vstd::array::axiom_array_ext_equal(*a, *b);
    }
    true
}

/// The 32 bytes of `src` that start at `start`.
pub fn bytes32_at(src: &[u8], start: usize) -> (r: [u8; 32])
    requires
        start + 32 <= src@.len(),
    ensures
        r@ == src@.subrange(start as int, start + 32),
{
    let n = src.len();
    let mut r = [0u8; 32];
    let mut i: usize = 0;
    while i < 32
        invariant
            0 <= i <= 32,
            start + 32 <= src@.len() == n,
            r@.len() == 32,
            forall|j: int| 0 <= j < i ==> r@[j] == src@[start + j],
        decreases 32 - i,
    {
        r[i] = src[start + i];
        i = i + 1;
    }
    assert(r@ =~= src@.subrange(start as int, start + 32));
    r
}

/// Appends the 32 bytes of `b` to `v`.
pub fn extend_bytes32(v: &mut Vec<u8>, b: &[u8; 32])
    ensures
        final(v)@ == old(v)@ + b@,
{
    let ghost v0 = v@;
    let mut i: usize = 0;
    while i < 32
        invariant
            0 <= i <= 32,
            v@ == v0 + b@.subrange(0, i as int),
        decreases 32 - i,
    {
        v.push(b[i]);
        i = i + 1;
        assert(v@ =~= v0 + b@.subrange(0, i as int));
    }
    assert(b@.subrange(0, 32) =~= b@);
}

/// The 64 bytes of `a` followed by those of `b`.
pub fn concat_bytes32(a: &[u8; 32], b: &[u8; 32]) -> (r: [u8; 64])
    ensures
        r@ == a@ + b@,
{
    let mut r = [0u8; 64];
    let mut i: usize = 0;
    while i < 32
        invariant
            0 <= i <= 32,
            r@.len() == 64,
            forall|j: int| 0 <= j < i ==> r@[j] == a@[j],
            forall|j: int| 0 <= j < i ==> r@[32 + j] == b@[j],
        decreases 32 - i,
    {
        r[i] = a[i];
        r[32 + i] = b[i];
        i = i + 1;
    }
    assert(r@ =~= a@ + b@);
    r
}

} // verus!
