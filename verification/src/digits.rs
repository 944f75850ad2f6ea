//! Sequences of decimal digits.

use vstd::prelude::*;

verus! {

/// Whether every element of `digits` is a decimal digit, 0 to 9.
pub open spec fn all_decimal(digits: Seq<u8>) -> bool {
    forall|i: int| 0 <= i < digits.len() ==> #[trigger] digits[i] <= 9
}

/// Whether every element of `digits` is at most 9.
pub fn is_all_decimal(digits: &[u8]) -> (answer: bool)
    ensures
        answer == all_decimal(digits@),
{
    let mut i: usize = 0;
    while i < digits.len()
        invariant
            i <= digits.len(),
            forall|k: int| 0 <= k < i ==> #[trigger] digits@[k] <= 9,
        decreases digits.len() - i,
    {
        if digits[i] > 9 {
            return false;
        }
        i += 1;
    }
    true
}

/// The elements of `values` as an array of `N`, if there are exactly `N` of
/// them.
pub fn to_array<const N: usize>(values: &[u8]) -> (array: Option<[u8; N]>)
    ensures
        array is Some <==> values@.len() == N,
        array matches Some(filled) ==> filled@ == values@,
{
    if values.len() != N {
        return None;
    }
    let mut filled: [u8; N] = [0u8; N];
    let mut i: usize = 0;
    while i < N
        invariant
            i <= N,
            values@.len() == N,
            forall|k: int| 0 <= k < i ==> #[trigger] filled@[k] == values@[k],
        decreases N - i,
    {
        filled[i] = values[i];
        i += 1;
    }
    assert(filled@ =~= values@);
    Some(filled)
}

} // verus!
