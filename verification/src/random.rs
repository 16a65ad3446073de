//! The one place where the library draws a random number.

use vstd::prelude::*;
use rand::Rng;
use rand::rngs::ThreadRng;

verus! {

/// `rand::rngs::ThreadRng`, the handle of the thread-local generator. Its
/// inside is of no concern here: a value is only passed on to `gen_range`.
#[verifier::external_type_specification]
#[verifier::external_body]
pub struct ExThreadRng(ThreadRng);

/// Calls `rand::Rng::gen_range` on the half-open range from 0 to `total`.
///
/// Trusted, not proved: `gen_range` returns a value inside the range that it
/// is given. It panics on an empty range, which `requires` rules out. The
/// thread-local generator also panics where the operating system gives it no
/// entropy to seed itself from; no condition on the arguments can rule that
/// out, and like a failed allocation it is not modelled. Which value comes
/// back is up to the generator, so nothing more is claimed.
#[verifier::external_body]
pub(crate) fn random_index(rng: &mut ThreadRng, total: usize) -> (i: usize)
    requires
        total > 0,
    ensures
        i < total,
{
    rng.gen_range(0..total)
}

} // verus!
