//! Small verified helpers on byte slices.

use vstd::prelude::*;

verus! {

/// Copies `s[from..to]` into a new vector.
pub fn copy_range(s: &[u8], from: usize, to: usize) -> (v: Vec<u8>)
    requires
        from <= to <= s@.len(),
    ensures
        v@ == s@.subrange(from as int, to as int),
{
    let mut v: Vec<u8> = Vec::new();
    let mut i: usize = from;
    while i < to
        invariant
            from <= i <= to <= s@.len(),
            v@ == s@.subrange(from as int, i as int),
        decreases to - i,
    {
        v.push(s[i]);
        i = i + 1;
        assert(v@ =~= s@.subrange(from as int, i as int));
    }
    v
}

/// Appends `s[from..to]` to `v`.
pub fn extend_range(v: &mut Vec<u8>, s: &[u8], from: usize, to: usize)
    requires
        from <= to <= s@.len(),
    ensures
        final(v)@ == old(v)@ + s@.subrange(from as int, to as int),
{
    let mut i: usize = from;
    while i < to
        invariant
            from <= i <= to <= s@.len(),
            v@ == old(v)@ + s@.subrange(from as int, i as int),
        decreases to - i,
    {
        v.push(s[i]);
        i = i + 1;
        assert(v@ =~= old(v)@ + s@.subrange(from as int, i as int));
    }
}

/// Whether `s[start..]` begins with exactly the bytes of `expect`.
pub fn range_eq(s: &[u8], start: usize, len: usize, expect: &[u8]) -> (r: bool)
    requires
        start <= s@.len(),
        len <= s@.len() - start,
    ensures
        r == (s@.subrange(start as int, start + len) == expect@),
{
    if len != expect.len() {
        assert(s@.subrange(start as int, start + len).len() != expect@.len());
        return false;
    }
    let n = s.len();
    let mut i: usize = 0;
    while i < len
        invariant
            i <= len,
            n == s@.len(),
            len == expect@.len(),
            start + len <= s@.len(),
            forall|j: int| 0 <= j < i ==> s@[start + j] == expect@[j],
        decreases len - i,
    {
        if s[start + i] != expect[i] {
            assert(s@.subrange(start as int, start + len)[i as int] != expect@[i as int]);
            return false;
        }
        i = i + 1;
    }
    assert(s@.subrange(start as int, start + len) =~= expect@);
    true
}

} // verus!
