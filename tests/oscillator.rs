use rp2040_sandbox::oscillator::{
    phase_position, Level, Oscillator, OscillatorError, Sawtooth, Sine, Square, FIXED_MAX,
};

fn value(l: Level) -> f32 {
    l.num as f32 / l.den as f32
}

fn levels<O: Oscillator<Level>>(osc: &mut O, n: usize) -> Vec<f32> {
    let mut out = Vec::new();
    for _ in 0..n {
        out.push(value(osc.next_sample()));
    }
    out
}

#[test]
fn square_alternates_at_half_sample_rate() {
    let mut sq = Square::new(2, 4).unwrap();
    assert_eq!(levels(&mut sq, 6), vec![1.0, -1.0, 1.0, -1.0, 1.0, -1.0]);
}

#[test]
fn square_fills_buffer() {
    let mut sq = Square::new(4, 16).unwrap();
    let mut buf = [Level { num: 0, den: 1 }; 5];
    sq.write_buffer(&mut buf);
    let got: Vec<f32> = buf.iter().map(|l| value(*l)).collect();
    assert_eq!(got, vec![1.0, 1.0, -1.0, -1.0, 1.0]);
    assert_eq!(sq.phase.step, 5);
}

#[test]
fn sawtooth_wraps_every_sample_rate_steps() {
    let mut saw = Sawtooth::new(2, 4).unwrap();
    assert_eq!(levels(&mut saw, 6), vec![-1.0, 0.0, -1.0, 0.0, -1.0, 0.0]);
    let mut saw = Sawtooth::new(2, 4).unwrap();
    for _ in 0..4 {
        let _: Level = saw.next_sample();
    }
    assert_eq!(saw.phase.step, 0);
}

#[test]
fn sawtooth_fills_buffer() {
    let mut saw = Sawtooth::new(4, 16).unwrap();
    let mut buf = [Level { num: 0, den: 1 }; 5];
    saw.write_buffer(&mut buf);
    let got: Vec<f32> = buf.iter().map(|l| value(*l)).collect();
    assert_eq!(got, vec![-1.0, -0.5, 0.0, 0.5, -1.0]);
    assert_eq!(buf[1], Level { num: -8, den: 16 });
}

#[test]
fn fixed_point_samples() {
    let mut saw = Sawtooth::new(4, 16).unwrap();
    let mut buf = [7u32; 5];
    saw.write_buffer(&mut buf);
    assert_eq!(buf, [0, 1_073_741_823, 2_147_483_647, 3_221_225_471, 0]);

    let mut sq = Square::new(2, 4).unwrap();
    let mut buf = [7u32; 4];
    sq.write_buffer(&mut buf);
    assert_eq!(buf, [FIXED_MAX, 0, FIXED_MAX, 0]);
}

#[test]
fn sine_angles_and_values() {
    let mut sine = Sine::new(2, 4).unwrap();
    let mut angles = Vec::new();
    let mut values = Vec::new();
    for _ in 0..4 {
        let a = sine.next_angle();
        angles.push(a);
        let v = (core::f32::consts::TAU * a as f32 / 4.0).cos();
        values.push(v);
    }
    assert_eq!(angles, vec![0, 2, 0, 2]);
    let expected = [1.0f32, -1.0, 1.0, -1.0];
    for (v, e) in values.iter().zip(expected.iter()) {
        assert!((v - e).abs() < 1e-6);
    }
    // The step counter keeps growing: no wrap.
    assert_eq!(sine.step, 4);
}

#[test]
fn sine_counter_goes_past_sample_rate() {
    let mut sine = Sine { freq: 3, sample_rate: 8, step: 1_000_000_000_000 };
    // 10^12 × 3 mod 8 = 0, then 3
    assert_eq!(sine.next_angle(), 0);
    assert_eq!(sine.next_angle(), 3);
    assert_eq!(sine.step, 1_000_000_000_002);
}

#[test]
fn zero_sample_rate_is_rejected() {
    assert_eq!(Sine::new(2, 0), Err(OscillatorError::ZeroSampleRate));
    assert_eq!(Sawtooth::new(2, 0), Err(OscillatorError::ZeroSampleRate));
    assert_eq!(Square::new(2, 0), Err(OscillatorError::ZeroSampleRate));
}

#[test]
fn phase_position_is_exact() {
    assert_eq!(phase_position(220, 0, 48_000), 0);
    assert_eq!(phase_position(220, 300, 48_000), 18_000);
    assert_eq!(phase_position(u32::MAX, u64::MAX, 48_000), ((u64::MAX as u128 * u32::MAX as u128) % 48_000) as u32);
}
