//! The pseudo-random generator that deals the boards. What stands here is
//! taken on trust: the generator is `pagurus`'s, the shuffle is `rand`'s.

use vstd::prelude::*;
use pagurus::random::StdRng;
use rand::seq::SliceRandom;
use crate::spatial::Position;

verus! {

/// `pagurus::random::StdRng`, a seeded generator. Nothing is known of what
/// is inside.
#[verifier::external_type_specification]
#[verifier::external_body]
pub struct ExStdRng(pagurus::random::StdRng);

/// Calls `pagurus::random::StdRng::from_clock_seed` with the clock reading of
/// `secs` seconds and `subsec_nanos` nanoseconds. Nothing is claimed of the
/// generator that comes back. The nanoseconds are to stay below a second, so
/// that `std::time::Duration::new`, which makes the reading, has nothing to
/// carry over and cannot overflow.
#[verifier::external_body]
pub(crate) fn rng_from_clock_seed(secs: u64, subsec_nanos: u32) -> (rng: StdRng)
    requires
        subsec_nanos < 1_000_000_000,
{
    StdRng::from_clock_seed(std::time::Duration::new(secs, subsec_nanos))
}

/// Calls the `Default` of `pagurus::random::StdRng`. Nothing is claimed of
/// the generator that comes back.
#[verifier::external_body]
pub(crate) fn rng_default() -> (rng: StdRng) {
    StdRng::default()
}

/// Calls `rand::seq::SliceRandom::shuffle` on `positions`. The method does
/// nothing but swap items of the slice, so what it leaves is a rearrangement
/// of what it found. Which rearrangement depends on the state of the
/// generator, and is not stated.
#[verifier::external_body]
pub(crate) fn shuffle(rng: &mut StdRng, positions: &mut Vec<Position>)
    ensures
        final(positions)@.to_multiset() == old(positions)@.to_multiset(),
{
    positions.shuffle(rng);
}

} // verus!
