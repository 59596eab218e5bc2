//! Small helpers on vectors of plain values.

use vstd::prelude::*;

verus! {

/// Appends a copy of every item of `source` to `target`.
pub(crate) fn extend_copied<T: Copy>(target: &mut Vec<T>, source: &Vec<T>)
    ensures
        final(target)@ == old(target)@ + source@,
{
    let n = source.len();
    let mut i: usize = 0;
    while i < n
        invariant
            i <= n,
            n == source@.len(),
            target@ == old(target)@ + source@.take(i as int),
        decreases n - i,
    {
        target.push(source[i]);
        i += 1;
    }
}

/// A copy of `source`.
pub(crate) fn copied<T: Copy>(source: &Vec<T>) -> (copy: Vec<T>)
    ensures
        copy@ == source@,
{
    let mut copy = Vec::new();
    extend_copied(&mut copy, source);
    copy
}

} // verus!
