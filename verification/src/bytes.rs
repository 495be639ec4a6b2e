//! Byte-buffer helpers shared by the decoding code.

use vstd::prelude::*;

verus! {

/// Returns a copy of `d[start..end]`.
pub fn copy_range(d: &Vec<u8>, start: usize, end: usize) -> (r: Vec<u8>)
    requires
        start <= end <= d@.len(),
    ensures
        r@ == d@.subrange(start as int, end as int),
{
    let mut r: Vec<u8> = Vec::new();
    let mut i: usize = start;
    while i < end
        invariant
            start <= i <= end <= d@.len(),
            r@ == d@.subrange(start as int, i as int),
        decreases end - i,
    {
        r.push(d[i]);
        assert(r@ =~= d@.subrange(start as int, i + 1 as int));
        i = i + 1;
    }
    assert(r@ =~= d@.subrange(start as int, end as int));
    r
}

/// Returns a copy of the whole buffer.
pub fn copy_bytes(d: &Vec<u8>) -> (r: Vec<u8>)
    ensures
        r@ == d@,
{
    let r = copy_range(d, 0, d.len());
    assert(r@ =~= d@);
    r
}

} // verus!
