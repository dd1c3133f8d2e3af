use vstd::prelude::*;

use libafl_bolts::rands::Rand;
use libafl_bolts::rands::RomuDuoJrRand;
use libafl_bolts::rands::StdRand;

verus! {

/// The standard random generator of libafl_bolts; its state is opaque here.
#[verifier::external_type_specification]
#[verifier::external_body]
pub struct ExRomuDuoJrRand(RomuDuoJrRand);

/// Calls `Rand::below` of libafl_bolts on the standard generator. Its source
/// computes `(next * upper) >> 64` on 128 bits, so the result is below the
/// bound; how the generator's state moves is left unsaid.
#[verifier::external_body]
fn below_nonzero(rng: &mut StdRand, upper: usize) -> (r: usize)
    requires
        upper > 0,
    ensures
        r < upper,
{
    rng.below(core::num::NonZeroUsize::new(upper).unwrap())
}

/// Draws a number in `0..upper`; a bound of 0 or 1 draws nothing and gives 0.
/// Which number a larger bound gives is the generator's draw, which depends
/// on its opaque state.
pub fn rand_below(rng: &mut StdRand, upper: usize) -> (r: usize)
    ensures
        upper <= 1 ==> r == 0 && *final(rng) == *old(rng),
        upper > 1 ==> r < upper,
{
    if upper <= 1 {
        return 0;
    }
    below_nonzero(rng, upper)
}

} // verus!
