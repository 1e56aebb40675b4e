//! Helpers over vectors.

use vstd::prelude::*;

verus! {

/// `v` in reverse order.
pub fn reversed<T>(v: Vec<T>) -> (out: Vec<T>)
    ensures
        out@ == v@.reverse(),
{
    let mut v = v;
    let ghost all = v@;
    let mut out: Vec<T> = Vec::with_capacity(v.len());
    while v.len() > 0
        invariant
            v@ == all.subrange(0, v.len() as int),
            v.len() <= all.len(),
            out.len() == all.len() - v.len(),
            forall|j: int| 0 <= j < out.len() ==> out@[j] == all[all.len() - 1 - j],
        decreases v.len(),
    {
        let x = v.pop().unwrap();
        out.push(x);
    }
    out
}

} // verus!
