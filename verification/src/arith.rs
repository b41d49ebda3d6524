//! The two floating-point computations the decoder needs, behind named
//! results. Log-probabilities travel as IEEE-754 binary64 bit patterns in
//! `u64`; the arithmetic on them is done by outside code that works on
//! such patterns directly, so the result of each operation is a pure
//! function of the argument patterns, the same in every process and on
//! every machine.
use vstd::prelude::*;

use rustc_apfloat::Float;

verus! {

/// The bit pattern of the IEEE-754 binary64 sum (round to nearest, ties
/// to even) of the two values the argument patterns stand for.
pub uninterp spec fn add_bits(a: u64, b: u64) -> u64;

/// The bit pattern of `ln(1/n)` as an IEEE-754 binary64 value: the flat
/// prior weight of one among `n` equally likely states.
pub uninterp spec fn uniform_prior_bits(n: usize) -> u64;

/// Relies on rustc_apfloat's `Double`: `from_bits`, IEEE-754 addition with
/// round-to-nearest-ties-to-even (its `Add` impl), and `to_bits`. The sum
/// depends on the two argument patterns alone.
#[verifier::external_body]
pub(crate) fn add_bits_exec(a: u64, b: u64) -> (r: u64)
    ensures
        r == add_bits(a, b),
{
    let x = rustc_apfloat::ieee::Double::from_bits(a as u128);
    let y = rustc_apfloat::ieee::Double::from_bits(b as u128);
    (x + y).value.to_bits() as u64
}

/// Relies on libm's `fabs` and `log`: `1/n` is formed by IEEE division
/// and its natural logarithm taken by `libm::log`, a pure function of its
/// argument. The bound on `n` keeps the conversion to the dividend exact.
#[verifier::external_body]
pub(crate) fn uniform_prior_exec(n: usize) -> (r: u64)
    requires
        1 <= n <= 0xffff_ffff,
    ensures
        r == uniform_prior_bits(n),
{
    let one = libm::fabs(1u32.into());
    let den = libm::fabs((n as u32).into());
    libm::log(one / den).to_bits()
}

} // verus!
