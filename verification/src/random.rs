//! The one source of chance of the games.

use vstd::prelude::*;

verus! {

/// A number drawn from `low..high` with the thread-local generator of the
/// `rand` crate, by `rand::Rng::gen_range` on `rand::thread_rng()`.
///
/// Trusted: `gen_range` returns a value of the half-open range it is given.
/// It panics on an empty range, which `requires` rules out. Nothing is
/// claimed about which value of the range comes back. That the system can
/// seed the generator is taken for granted: `thread_rng` panics if it
/// cannot.
#[verifier::external_body]
pub(crate) fn random_in(low: usize, high: usize) -> (drawn: usize)
    requires
        low < high,
    ensures
        low <= drawn < high,
{
    rand::Rng::gen_range(&mut rand::thread_rng(), low..high)
}

} // verus!
