//! Helpers for consuming vectors in order.

use vstd::prelude::*;

verus! {

/// The elements of `v` in reverse order.
pub fn reversed<T>(v: Vec<T>) -> (r: Vec<T>)
    ensures
        r@ == v@.reverse(),
{
    let ghost v0 = v@;
    let mut v = v;
    let mut r: Vec<T> = Vec::new();
    while v.len() > 0
        invariant
            v@ == v0.take(v@.len() as int),
            v@.len() <= v0.len(),
            r@ == v0.skip(v@.len() as int).reverse(),
        decreases v@.len(),
    {
        let ghost n = v@.len() as int;
        let x = v.pop().unwrap();
        r.push(x);
        proof {
            assert(v0.skip(n - 1).reverse() =~= v0.skip(n).reverse().push(v0[n - 1]));
        }
    }
    proof {
        assert(v0.skip(0) =~= v0);
    }
    r
}

} // verus!
