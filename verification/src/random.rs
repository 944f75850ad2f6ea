//! Random decimal digits, drawn from the standard generator of the `rand`
//! crate.

use crate::digits::all_decimal;
use rand::distributions::Uniform;
use rand::rngs::StdRng;
use rand::Rng;
use vstd::prelude::*;

verus! {

/// The generator `rand::rngs::StdRng`, carried through as an opaque value:
/// nothing is known of its state.
#[verifier::external_type_specification]
#[verifier::external_body]
pub struct ExStdRng(rand::rngs::StdRng);

/// Draws one number between `low` and `high`, both included, by
/// `Rng::sample` with the distribution `Uniform::new_inclusive(low, high)`.
///
/// Trusted, not proved: the number drawn is never below `low` and never
/// above `high`. Nothing else is claimed of it, and two draws may differ.
/// `Uniform::new_inclusive` panics when `low` is above `high`, which the
/// precondition rules out. The generator is one that is seeded once and
/// from then on only computes: a draw asks nothing of the system.
#[verifier::external_body]
fn sample_uniform(rng: &mut StdRng, low: u8, high: u8) -> (drawn: u8)
    requires
        low <= high,
    ensures
        low <= drawn <= high,
{
    rng.sample(Uniform::new_inclusive(low, high))
}

/// Draws `N` decimal digits, each uniformly from 0 to 9.
pub fn random_digits<const N: usize>(rng: &mut StdRng) -> (digits: [u8; N])
    ensures
        all_decimal(digits@),
{
    let mut digits: [u8; N] = [0u8; N];
    let mut i: usize = 0;
    while i < N
        invariant
            i <= N,
            forall|k: int| 0 <= k < N ==> #[trigger] digits@[k] <= 9,
        decreases N - i,
    {
        let drawn = sample_uniform(rng, 0, 9);
        digits[i] = drawn;
        i += 1;
    }
    digits
}

} // verus!
