use vstd::prelude::*;

use rand::seq::IndexedRandom;
use rand::Rng;

use crate::procgen::Rect;

verus! {

/// The thread-local random generator of `rand`; opaque to Verus.
#[verifier::external_type_specification]
#[verifier::external_body]
pub struct ExThreadRng(rand::rngs::ThreadRng);

/// Calls `rand::Rng::random_range` on `low..high`: some value in that range;
/// which one depends on the generator. The range must not be empty (the call
/// panics on an empty range).
#[verifier::external_body]
pub(crate) fn random_range(rng: &mut rand::rngs::ThreadRng, low: i32, high: i32) -> (r: i32)
    requires
        low < high,
    ensures
        low <= r < high,
{
    rng.random_range(low..high)
}

/// Calls `rand::Rng::random_ratio`: `true` with probability
/// `numerator / denominator`, so always `false` for 0 and always `true` when
/// both are equal; other outcomes depend on the generator. The call panics
/// unless `0 < denominator` and `numerator <= denominator`.
#[verifier::external_body]
pub(crate) fn random_ratio(rng: &mut rand::rngs::ThreadRng, numerator: u32, denominator: u32) -> (b: bool)
    requires
        0 < denominator,
        numerator <= denominator,
    ensures
        numerator == 0 ==> !b,
        numerator == denominator ==> b,
{
    rng.random_ratio(numerator, denominator)
}

/// Calls `rand::seq::IndexedRandom::choose` on the rooms: `None` for an empty
/// slice, else one of its elements, which one depending on the generator.
#[verifier::external_body]
pub(crate) fn choose_room(rooms: &Vec<Rect>, rng: &mut rand::rngs::ThreadRng) -> (r: Option<Rect>)
    ensures
        r is None <==> rooms@.len() == 0,
        r matches Some(x) ==> rooms@.contains(x),
{
    rooms.choose(rng).copied()
}

/// The generator of `fastrand`; opaque to Verus.
#[verifier::external_type_specification]
#[verifier::external_body]
pub struct ExFastRng(fastrand::Rng);

/// Calls `fastrand::Rng::usize` on `0..n`: some index below `n`; which one
/// depends on the generator. The call panics on an empty range.
#[verifier::external_body]
pub(crate) fn random_index(rng: &mut fastrand::Rng, n: usize) -> (r: usize)
    requires
        n > 0,
    ensures
        r < n,
{
    rng.usize(0..n)
}

/// Calls `fastrand::usize` on `0..n` with the thread-local generator: some
/// index below `n`; which one depends on the generator. The call panics on
/// an empty range.
#[verifier::external_body]
pub(crate) fn thread_random_index(n: usize) -> (r: usize)
    requires
        n > 0,
    ensures
        r < n,
{
    fastrand::usize(0..n)
}

} // verus!
