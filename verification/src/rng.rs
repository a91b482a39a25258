use vstd::prelude::*;

verus! {

/// Declares fastrand's generator type so that interpreter state can hold
/// one. The type stays opaque here; every use goes through the wrappers
/// below, and nothing about the stream of values is assumed anywhere.
#[verifier::external_type_specification]
#[verifier::external_body]
pub struct ExRng(fastrand::Rng);

/// Relies on fastrand::Rng::new: a generator forked from the thread-local
/// source, so each one starts from fresh entropy. No contract: nothing can
/// be promised about the values it will yield.
#[verifier::external_body]
pub(crate) fn fresh_rng() -> fastrand::Rng {
    fastrand::Rng::new()
}

/// Relies on fastrand::Rng::with_seed: a generator in the fixed state the
/// seed names, which makes runs reproducible. The byte sequence itself is
/// still not modelled, so no contract is stated.
#[verifier::external_body]
pub(crate) fn seeded_rng(seed: u64) -> fastrand::Rng {
    fastrand::Rng::with_seed(seed)
}

/// Relies on fastrand::Rng::u8 over the half-open range 0..255: it returns
/// a value of that range, drawn from the generator, and panics only on an
/// empty range. Only the range bound is stated; which value comes back is
/// chance.
#[verifier::external_body]
pub(crate) fn random_byte(rng: &mut fastrand::Rng) -> (r: u8)
    ensures
        r < 255,
{
    rng.u8(0..255)
}

} // verus!
