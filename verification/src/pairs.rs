use vstd::prelude::*;

verus! {

/// Swaps the two elements of a pair.
pub fn reverse(pair: (i32, bool)) -> (r: (bool, i32))
    ensures
        r == (pair.1, pair.0),
{
    let (integer, boolean) = pair;
    (boolean, integer)
}

} // verus!
