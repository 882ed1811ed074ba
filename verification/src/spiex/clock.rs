//! The clock of the state machines.
use vstd::arithmetic::div_mod::{
    lemma_div_multiples_vanish_quotient, lemma_fundamental_div_mod, lemma_mod_bound,
};
use vstd::prelude::*;

verus! {

/// `fixed`'s `ToFixed::to_fixed` from a `u32` to a `FixedU64` with eight
/// fractional bits, as raw bits: the number, times 256. It always fits.
#[verifier::external_body]
fn to_fixed_bits(n: u32) -> (r: u64)
    ensures
        r == n * 256,
{
    fixed::traits::ToFixed::to_fixed::<fixed::FixedU64<fixed::types::extra::U8>>(n).to_bits()
}

/// `fixed`'s division of two `FixedU64` with eight fractional bits, on raw bits:
/// the quotient, rounded down to a multiple of one 256th. It panics when the
/// divisor is zero and may panic when the quotient does not fit.
#[verifier::external_body]
fn fixed_quotient_bits(a: u64, b: u64) -> (r: u64)
    requires
        b != 0,
        (a * 256) / (b as int) <= u64::MAX,
    ensures
        r == (a * 256) / (b as int),
{
    let a = fixed::FixedU64::<fixed::types::extra::U8>::from_bits(a);
    let b = fixed::FixedU64::<fixed::types::extra::U8>::from_bits(b);
    (a / b).to_bits()
}

/// `fixed`'s `ToFixed::to_fixed` from a `FixedU64` to a `FixedU32`, both with
/// eight fractional bits, on raw bits: the same number. It may panic when the
/// number does not fit.
#[verifier::external_body]
fn fixed_narrowed_bits(n: u64) -> (r: u32)
    requires
        n <= u32::MAX,
    ensures
        r == n,
{
    let wide = fixed::FixedU64::<fixed::types::extra::U8>::from_bits(n);
    fixed::traits::ToFixed::to_fixed::<fixed::FixedU32<fixed::types::extra::U8>>(wide).to_bits()
}

/// How many instructions a second clock the lines at `frequency_hz`, in 32 bits:
/// one period takes four.
pub open spec fn instruction_rate(frequency_hz: u32) -> int {
    (frequency_hz * 4) % 0x1_0000_0000
}

/// The clock divider, in 256ths, that makes the state machines clock the lines
/// at `frequency_hz` when the system runs at `sys_freq`.
pub fn calculate_clock_divider(sys_freq: u32, frequency_hz: u32) -> (r: u32)
    requires
        instruction_rate(frequency_hz) != 0,
        (sys_freq * 256) / instruction_rate(frequency_hz) <= u32::MAX,
    ensures
        r == (sys_freq * 256) / instruction_rate(frequency_hz),
        frequency_hz < 0x4000_0000 ==> r * (frequency_hz * 4) <= sys_freq * 256 < (r + 1) * (
        frequency_hz * 4),
{
    proof {
        let rate = instruction_rate(frequency_hz);
        lemma_fundamental_div_mod(sys_freq * 256, rate);
        lemma_mod_bound(sys_freq * 256, rate);
        let q = (sys_freq * 256) / rate;
        assert(q * rate == rate * q) by (nonlinear_arith);
        assert((q + 1) * rate == rate * q + rate) by (nonlinear_arith);
    }
    let target: u32 = frequency_hz.wrapping_mul(4);
    assert(target == instruction_rate(frequency_hz));
    proof {
        assert((sys_freq * 256 * 256) / (target * 256) == (sys_freq * 256) / (target as int)) by {
            lemma_div_multiples_vanish_quotient(256, sys_freq * 256, target as int);
        }
    }
    let sys: u64 = to_fixed_bits(sys_freq);
    let target: u64 = to_fixed_bits(target);
    fixed_narrowed_bits(fixed_quotient_bits(sys, target))
}

/// How fast the SPI lines are clocked.
pub const SPI_FREQUENCY_HZ: u32 = 14_000_000;

/// The clock divider, in 256ths, for the SPI lines when the system runs at
/// `sys_freq`.
pub fn spi_clock_divider(sys_freq: u32) -> (r: u32)
    ensures
        r == (sys_freq * 256) / 56_000_000,
{
    calculate_clock_divider(sys_freq, SPI_FREQUENCY_HZ)
}

/// A period takes four instructions; the rate is counted in 32 bits.
pub proof fn law_period_takes_four_instructions(frequency_hz: u32)
    ensures
        frequency_hz < 0x4000_0000 ==> instruction_rate(frequency_hz) == 4 * frequency_hz,
        (4 * frequency_hz - instruction_rate(frequency_hz)) % 0x1_0000_0000 == 0,
        0 <= instruction_rate(frequency_hz) < 0x1_0000_0000,
{
}

} // verus!
