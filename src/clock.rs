//! Clock configuration: the divisor that turns the system clock into the
//! sequencer's instruction rate.
use vstd::prelude::*;

verus! {

/// Number of audio channels carried per frame (left and right).
pub const CHANNELS: u32 = 2;

/// Largest integer divisor the hardware clock divider can hold.
pub const MAX_DIVISOR: u32 = 65535;

/// Why a clock configuration was rejected.
#[derive(Debug, Clone, Copy, PartialEq, Eq, Structural)]
pub enum ClockError {
    /// The bit clock is zero (a zero sample rate, bit depth or cycle count).
    ZeroRate,
    /// The system clock is slower than the bit clock: the divisor rounds to zero.
    DivisorZero,
    /// The divisor does not fit the hardware divider.
    DivisorTooLarge,
}

/// A clock divisor in integer plus 1/256 fractional parts.
#[derive(Debug, Clone, Copy, PartialEq, Eq, Structural)]
pub struct ClockDivisor {
    pub int: u16,
    pub frac: u8,
}

/// `sample_rate × channels × bit_depth × cycles_per_bit`.
pub open spec fn bit_clock_spec(sample_rate: nat, bit_depth: nat, cycles_per_bit: nat) -> nat {
    sample_rate * 2 * bit_depth * cycles_per_bit
}

/// The divisor for the given configuration: the floor of system clock over
/// bit clock, with no fractional part, or the reason it is invalid.
pub open spec fn divisor_spec(
    system_clock_hz: nat,
    sample_rate: nat,
    bit_depth: nat,
    cycles_per_bit: nat,
) -> Result<ClockDivisor, ClockError> {
    let b = bit_clock_spec(sample_rate, bit_depth, cycles_per_bit);
    if b == 0 {
        Err(ClockError::ZeroRate)
    } else if system_clock_hz / b == 0 {
        Err(ClockError::DivisorZero)
    } else if system_clock_hz / b > MAX_DIVISOR {
        Err(ClockError::DivisorTooLarge)
    } else {
        Ok(ClockDivisor { int: (system_clock_hz / b) as u16, frac: 0 })
    }
}

/// The rate in Hz at which the sequencer must execute instructions.
pub fn bit_clock_hz(sample_rate: u32, bit_depth: u32, cycles_per_bit: u32) -> (r: u128)
    ensures
        r == bit_clock_spec(sample_rate as nat, bit_depth as nat, cycles_per_bit as nat),
{
    let s = sample_rate as u128;
    let d = bit_depth as u128;
    let c = cycles_per_bit as u128;
    assert(s * 2 <= 0x1_ffff_fffeu128);
    assert(s * 2 * d <= 0x1_ffff_fffeu128 * 0xffff_ffffu128) by (nonlinear_arith)
        requires s * 2 <= 0x1_ffff_fffeu128, d <= 0xffff_ffffu128, 0 <= s, 0 <= d;
    assert(s * 2 * d * c <= 0x1_ffff_fffeu128 * 0xffff_ffffu128 * 0xffff_ffffu128) by (nonlinear_arith)
        requires s * 2 * d <= 0x1_ffff_fffeu128 * 0xffff_ffffu128, c <= 0xffff_ffffu128, 0 <= s * 2 * d, 0 <= c;
    s * 2 * d * c
}

/// Derives the sequencer's clock divisor from the system clock and the
/// stream configuration. The fractional part is always zero.
pub fn clock_divisor(
    system_clock_hz: u32,
    sample_rate: u32,
    bit_depth: u32,
    cycles_per_bit: u32,
) -> (r: Result<ClockDivisor, ClockError>)
    ensures
        r == divisor_spec(
            system_clock_hz as nat,
            sample_rate as nat,
            bit_depth as nat,
            cycles_per_bit as nat,
        ),
{
    let b = bit_clock_hz(sample_rate, bit_depth, cycles_per_bit);
    if b == 0 {
        return Err(ClockError::ZeroRate);
    }
    let q = system_clock_hz as u128 / b;
    if q == 0 {
        Err(ClockError::DivisorZero)
    } else if q > MAX_DIVISOR as u128 {
        Err(ClockError::DivisorTooLarge)
    } else {
        Ok(ClockDivisor { int: q as u16, frac: 0 })
    }
}

/// The divisor is a function of its inputs alone: two derivations from the
/// same configuration give the same divisor.
pub proof fn lemma_divisor_deterministic(
    system_clock_hz: u32,
    sample_rate: u32,
    bit_depth: u32,
    cycles_per_bit: u32,
    first: Result<ClockDivisor, ClockError>,
    second: Result<ClockDivisor, ClockError>,
)
    requires
        first == divisor_spec(system_clock_hz as nat, sample_rate as nat, bit_depth as nat, cycles_per_bit as nat),
        second == divisor_spec(system_clock_hz as nat, sample_rate as nat, bit_depth as nat, cycles_per_bit as nat),
    ensures
        first == second,
{
}

} // verus!
