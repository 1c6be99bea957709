use vstd::prelude::*;

verus! {

#[verifier::external_type_specification]
#[verifier::external_body]
pub struct ExRng(fastrand::Rng);

/// Relies on fastrand::Rng::new: creates a generator seeded from the
/// thread-local generator.
#[verifier::external_body]
pub(crate) fn rng_new() -> fastrand::Rng {
    fastrand::Rng::new()
}

/// Relies on fastrand::Rng::u64 over the full, nonempty range: every `u64`
/// can come back.
#[verifier::external_body]
pub(crate) fn rng_u64(rng: &fastrand::Rng) -> u64 {
    rng.u64(..)
}

/// Relies on fastrand::Rng::u8 over the full, nonempty range: every `u8`
/// can come back.
#[verifier::external_body]
pub(crate) fn rng_u8(rng: &fastrand::Rng) -> u8 {
    rng.u8(..)
}

/// Relies on fastrand::Rng::u16 over the full, nonempty range: every `u16`
/// can come back.
#[verifier::external_body]
pub(crate) fn rng_u16(rng: &fastrand::Rng) -> u16 {
    rng.u16(..)
}

/// Relies on fastrand::Rng::u32 over the full, nonempty range: every `u32`
/// can come back.
#[verifier::external_body]
pub(crate) fn rng_u32(rng: &fastrand::Rng) -> u32 {
    rng.u32(..)
}

/// Relies on fastrand::Rng::i8 over the full, nonempty range: every `i8`
/// can come back.
#[verifier::external_body]
pub(crate) fn rng_i8(rng: &fastrand::Rng) -> i8 {
    rng.i8(..)
}

/// Relies on fastrand::Rng::i16 over the full, nonempty range: every `i16`
/// can come back.
#[verifier::external_body]
pub(crate) fn rng_i16(rng: &fastrand::Rng) -> i16 {
    rng.i16(..)
}

/// Relies on fastrand::Rng::i32 over the full, nonempty range: every `i32`
/// can come back.
#[verifier::external_body]
pub(crate) fn rng_i32(rng: &fastrand::Rng) -> i32 {
    rng.i32(..)
}

/// Relies on fastrand::Rng::i64 over the full, nonempty range: every `i64`
/// can come back.
#[verifier::external_body]
pub(crate) fn rng_i64(rng: &fastrand::Rng) -> i64 {
    rng.i64(..)
}

/// Relies on fastrand::Rng::usize on the range `0..n`: its multiply-shift
/// reduction yields a value below the range's length `n`, and the range is
/// nonempty because `n > 0`, so the empty-range panic is unreachable.
#[verifier::external_body]
pub(crate) fn rng_usize_below(rng: &fastrand::Rng, n: usize) -> (r: usize)
    requires
        n > 0,
    ensures
        r < n,
{
    rng.usize(0..n)
}

} // verus!
