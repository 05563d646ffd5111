//! Sources of randomness the engine draws from.
use vstd::prelude::*;

verus! {

#[verifier::external_type_specification]
#[verifier::external_body]
pub struct ExSmallRng(rand::rngs::SmallRng);

#[verifier::external_type_specification]
#[verifier::external_body]
pub struct ExThreadRng(rand::rngs::ThreadRng);

#[verifier::external_type_specification]
#[verifier::external_body]
pub struct ExOsRng(rand::rngs::OsRng);

/// A source of uniformly random draws.
pub trait RandomSource {
    /// A number drawn uniformly from `0..n`.
    fn below(&mut self, n: usize) -> (r: usize)
        requires
            0 < n,
        ensures
            r < n,
    ;

    /// A fair coin.
    fn coin(&mut self) -> bool;
}

/// Relies on `rand::Rng::random_range` over `..n`, which panics only on an
/// empty range and otherwise returns a number in `0..n`.
#[verifier::external_body]
fn small_rng_below(rng: &mut rand::rngs::SmallRng, n: usize) -> (r: usize)
    requires
        0 < n,
    ensures
        r < n,
{
    rand::Rng::random_range(rng, ..n)
}

/// Relies on `rand::Rng::random::<bool>`: a fair coin.
#[verifier::external_body]
fn small_rng_coin(rng: &mut rand::rngs::SmallRng) -> bool {
    rand::Rng::random::<bool>(rng)
}

/// Relies on `rand::Rng::random_range` over `..n`, which panics only on an
/// empty range and otherwise returns a number in `0..n`.
#[verifier::external_body]
fn thread_rng_below(rng: &mut rand::rngs::ThreadRng, n: usize) -> (r: usize)
    requires
        0 < n,
    ensures
        r < n,
{
    rand::Rng::random_range(rng, ..n)
}

/// Relies on `rand::Rng::random::<bool>`: a fair coin.
#[verifier::external_body]
fn thread_rng_coin(rng: &mut rand::rngs::ThreadRng) -> bool {
    rand::Rng::random::<bool>(rng)
}

/// Relies on `rand::Rng::random_range` over `..n` through
/// `rand::TryRngCore::unwrap_mut`, which panics if the operating system
/// cannot supply randomness, and otherwise returns a number in `0..n`.
#[verifier::external_body]
fn os_rng_below(rng: &mut rand::rngs::OsRng, n: usize) -> (r: usize)
    requires
        0 < n,
    ensures
        r < n,
{
    rand::Rng::random_range(&mut rand::TryRngCore::unwrap_mut(rng), ..n)
}

/// Relies on `rand::Rng::random::<bool>` through `rand::TryRngCore::unwrap_mut`
/// (a fair coin; panics if the operating system cannot supply randomness).
#[verifier::external_body]
fn os_rng_coin(rng: &mut rand::rngs::OsRng) -> bool {
    rand::Rng::random::<bool>(&mut rand::TryRngCore::unwrap_mut(rng))
}

impl RandomSource for rand::rngs::SmallRng {
    fn below(&mut self, n: usize) -> (r: usize) {
        small_rng_below(self, n)
    }

    fn coin(&mut self) -> bool {
        small_rng_coin(self)
    }
}

impl RandomSource for rand::rngs::ThreadRng {
    fn below(&mut self, n: usize) -> (r: usize) {
        thread_rng_below(self, n)
    }

    fn coin(&mut self) -> bool {
        thread_rng_coin(self)
    }
}

impl RandomSource for rand::rngs::OsRng {
    fn below(&mut self, n: usize) -> (r: usize) {
        os_rng_below(self, n)
    }

    fn coin(&mut self) -> bool {
        os_rng_coin(self)
    }
}

} // verus!
