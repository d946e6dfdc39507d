use rp2040_sandbox::clock::{bit_clock_hz, clock_divisor, ClockDivisor, ClockError};

#[test]
fn divisor_for_48k_stereo_32_bit() {
    assert_eq!(bit_clock_hz(48_000, 32, 5), 15_360_000);
    assert_eq!(
        clock_divisor(125_000_000, 48_000, 32, 5),
        Ok(ClockDivisor { int: 8, frac: 0 })
    );
}

#[test]
fn divisor_is_deterministic() {
    let first = clock_divisor(125_000_000, 48_000, 32, 5);
    let second = clock_divisor(125_000_000, 48_000, 32, 5);
    assert_eq!(first, second);
    assert_eq!(clock_divisor(133_000_000, 44_100, 16, 5), clock_divisor(133_000_000, 44_100, 16, 5));
}

#[test]
fn divisor_rejects_zero_rate() {
    assert_eq!(clock_divisor(125_000_000, 0, 32, 5), Err(ClockError::ZeroRate));
    assert_eq!(clock_divisor(125_000_000, 48_000, 0, 5), Err(ClockError::ZeroRate));
    assert_eq!(clock_divisor(125_000_000, 48_000, 32, 0), Err(ClockError::ZeroRate));
}

#[test]
fn divisor_rejects_rounding_to_zero() {
    assert_eq!(clock_divisor(1_000_000, 48_000, 32, 5), Err(ClockError::DivisorZero));
}

#[test]
fn divisor_rejects_too_large() {
    // 125 MHz over a 10 Hz bit clock is far beyond the 16-bit divider.
    assert_eq!(clock_divisor(125_000_000, 1, 1, 5), Err(ClockError::DivisorTooLarge));
    // 655 350 Hz over a 10 Hz bit clock is exactly the largest divisor.
    assert_eq!(
        clock_divisor(655_350, 1, 1, 5),
        Ok(ClockDivisor { int: 65535, frac: 0 })
    );
    assert_eq!(clock_divisor(655_360, 1, 1, 5), Err(ClockError::DivisorTooLarge));
}

#[test]
fn bit_clock_of_largest_inputs_does_not_overflow() {
    let m = u32::MAX as u128;
    assert_eq!(bit_clock_hz(u32::MAX, u32::MAX, u32::MAX), m * 2 * m * m);
    assert_eq!(
        clock_divisor(u32::MAX, u32::MAX, u32::MAX, u32::MAX),
        Err(ClockError::DivisorZero)
    );
}
