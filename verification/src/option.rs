use vstd::prelude::*;

verus! {

/// Both halves of a pair, if both are there.
pub open spec fn both<A, B>(pair: (Option<A>, Option<B>)) -> Option<(A, B)> {
    match pair {
        (Some(a), Some(b)) => Some((a, b)),
        _ => None,
    }
}

/// Turns a pair of options into an option of a pair: the pair of both values
/// where both are present, nothing where either is missing.
pub fn sequence<A, B>(pair: (Option<A>, Option<B>)) -> (joined: Option<(A, B)>)
    ensures
        joined == both(pair),
{
    match pair {
        (Some(a), Some(b)) => Some((a, b)),
        _ => None,
    }
}

} // verus!
