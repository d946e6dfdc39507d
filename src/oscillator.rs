//! Waveform producers.
//!
//! Every oscillator keeps an integer phase counter. The position within the
//! current period is the exact ratio `(step × freq mod sample_rate) / sample_rate`,
//! computed once by [`phase_position`]; each output representation then
//! quantizes that ratio at the boundary.
use vstd::prelude::*;
use vstd::arithmetic::div_mod::{
    lemma_add_mod_noop, lemma_mod_add_multiples_vanish, lemma_mod_bound, lemma_mod_self_0, lemma_mul_mod_noop_left, lemma_small_mod,
};

verus! {

/// Largest fixed-point sample magnitude.
pub const FIXED_MAX: u32 = 0xffff_ffff;

/// Why an oscillator could not be built.
#[derive(Debug, Clone, Copy, PartialEq, Eq, Structural)]
pub enum OscillatorError {
    /// A sample rate of zero leaves the phase undefined.
    ZeroSampleRate,
}

/// A normalized sample: the exact rational value `num / den`, within [-1, 1].
#[derive(Debug, Clone, Copy, PartialEq, Eq, Structural)]
pub struct Level {
    pub num: i64,
    pub den: u32,
}

/// Numerator of the phase ratio after `step` steps: the ratio is this value
/// over `sample_rate`, always in [0, 1).
pub open spec fn phase_spec(freq: nat, step: nat, sample_rate: nat) -> nat {
    (step * freq) % sample_rate
}

/// Sawtooth as a fixed-point magnitude: `frac × FIXED_MAX`, rounded down.
pub open spec fn saw_fixed_spec(pos: nat, sample_rate: nat) -> u32 {
    ((pos * FIXED_MAX as nat) / sample_rate) as u32
}

/// Sawtooth as a normalized level: `2 × frac − 1`.
pub open spec fn saw_level_spec(pos: nat, sample_rate: nat) -> Level {
    Level { num: (2 * pos - sample_rate) as i64, den: sample_rate as u32 }
}

/// Square wave as a fixed-point magnitude: full scale in the first half of
/// the period, zero in the second.
pub open spec fn square_fixed_spec(pos: nat, sample_rate: nat) -> u32 {
    if 2 * pos < sample_rate { FIXED_MAX } else { 0 }
}

/// Square wave as a normalized level: +1 in the first half of the period,
/// -1 in the second.
pub open spec fn square_level_spec(pos: nat, sample_rate: nat) -> Level {
    if 2 * pos < sample_rate {
        Level { num: 1, den: 1 }
    } else {
        Level { num: -1i64, den: 1 }
    }
}

/// Numerator of the phase ratio `frac(step × freq / sample_rate)` over `sample_rate`.
pub fn phase_position(freq: u32, step: u64, sample_rate: u32) -> (r: u32)
    requires
        sample_rate > 0,
    ensures
        r as nat == phase_spec(freq as nat, step as nat, sample_rate as nat),
        r < sample_rate,
{
    let reduced = step % (sample_rate as u64);
    assert(reduced as int * freq as int <= 0xffff_ffff * 0xffff_ffff) by (nonlinear_arith)
        requires 0 <= reduced < sample_rate, 0 <= freq <= 0xffff_ffff, sample_rate <= 0xffff_ffff;
    let r = (reduced * (freq as u64)) % (sample_rate as u64);
    proof {
        lemma_mul_mod_noop_left(step as int, freq as int, sample_rate as int);
    }
    r as u32
}

/// Sawtooth quantized to a fixed-point magnitude.
pub fn saw_fixed(pos: u32, sample_rate: u32) -> (r: u32)
    requires
        pos < sample_rate,
    ensures
        r == saw_fixed_spec(pos as nat, sample_rate as nat),
{
    assert(pos as int * 0xffff_ffff <= 0xffff_ffff * 0xffff_ffff) by (nonlinear_arith)
        requires 0 <= pos <= 0xffff_ffff;
    let q = (pos as u64 * FIXED_MAX as u64) / (sample_rate as u64);
    assert(q <= FIXED_MAX) by (nonlinear_arith)
        requires
            q as int == (pos as int * 0xffff_ffff) / (sample_rate as int),
            pos < sample_rate,
            0 <= pos,
    ;
    q as u32
}

/// Sawtooth quantized to a normalized level.
pub fn saw_level(pos: u32, sample_rate: u32) -> (r: Level)
    requires
        pos < sample_rate,
    ensures
        r == saw_level_spec(pos as nat, sample_rate as nat),
{
    Level { num: 2 * (pos as i64) - (sample_rate as i64), den: sample_rate }
}

/// Square wave quantized to a fixed-point magnitude.
pub fn square_fixed(pos: u32, sample_rate: u32) -> (r: u32)
    requires
        pos < sample_rate,
    ensures
        r == square_fixed_spec(pos as nat, sample_rate as nat),
{
    if (pos as u64) * 2 < sample_rate as u64 { FIXED_MAX } else { 0 }
}

/// Square wave quantized to a normalized level.
pub fn square_level(pos: u32, sample_rate: u32) -> (r: Level)
    requires
        pos < sample_rate,
    ensures
        r == square_level_spec(pos as nat, sample_rate as nat),
{
    if (pos as u64) * 2 < sample_rate as u64 {
        Level { num: 1, den: 1 }
    } else {
        Level { num: -1, den: 1 }
    }
}

/// Produces one sample per call, in representation `T`.
pub trait Oscillator<T>: Sized {
    /// The state is usable: the next call is defined.
    spec fn well_formed(&self) -> bool;

    /// The sample the next call returns.
    spec fn upcoming(&self) -> T;

    /// The state after the next call.
    spec fn stepped(&self) -> Self;

    /// The state after `n` calls.
    spec fn advanced(&self, n: nat) -> Self;

    /// `advanced` starts at the current state, takes one `stepped` per call,
    /// and stays well formed.
    proof fn lemma_advanced(&self, n: nat)
        requires
            self.well_formed(),
        ensures
            self.advanced(0) == *self,
            self.advanced(n + 1) == self.advanced(n).stepped(),
            self.advanced(n).well_formed(),
    ;

    /// Returns the next sample and advances the phase by one step.
    fn next_sample(&mut self) -> (r: T)
        requires
            old(self).well_formed(),
        ensures
            r == old(self).upcoming(),
            *final(self) == old(self).stepped(),
            final(self).well_formed(),
    ;

    /// Fills the buffer left to right with successive samples.
    fn write_buffer(&mut self, buffer: &mut [T])
        requires
            old(self).well_formed(),
        ensures
            final(buffer)@.len() == old(buffer)@.len(),
            forall|i: int|
                0 <= i < old(buffer)@.len() ==> #[trigger] final(buffer)@[i] == old(self).advanced(i as nat).upcoming(),
            *final(self) == old(self).advanced(old(buffer)@.len()),
            final(self).well_formed(),
    {
        let n = buffer.len();
        let mut i: usize = 0;
        proof {
            old(self).lemma_advanced(0);
        }
        while i < n
            invariant
                n == buffer@.len(),
                old(self).well_formed(),
                buffer@.len() == old(buffer)@.len(),
                i <= n,
                self.well_formed(),
                *self == old(self).advanced(i as nat),
                forall|j: int|
                    0 <= j < i ==> #[trigger] buffer@[j] == old(self).advanced(j as nat).upcoming(),
            decreases n - i,
        {
            proof {
                old(self).lemma_advanced(i as nat);
            }
            let v = self.next_sample();
            buffer[i] = v;
            i = i + 1;
        }
    }
}

/// A phase counter that wraps to zero once it reaches the sample rate.
#[derive(Debug, Clone, Copy, PartialEq, Eq, Structural)]
pub struct WrappingPhase {
    pub freq: u32,
    pub sample_rate: u32,
    pub step: u32,
}

impl WrappingPhase {
    pub open spec fn well_formed(&self) -> bool {
        0 < self.sample_rate && self.step < self.sample_rate
    }

    /// Numerator of the current phase ratio, over the sample rate.
    pub open spec fn position(&self) -> nat {
        phase_spec(self.freq as nat, self.step as nat, self.sample_rate as nat)
    }

    /// The counter after one step.
    pub open spec fn stepped(&self) -> WrappingPhase {
        WrappingPhase {
            step: if self.step + 1 >= self.sample_rate { 0 } else { (self.step + 1) as u32 },
            ..*self
        }
    }

    /// The counter after `n` steps.
    pub open spec fn advanced(&self, n: nat) -> WrappingPhase {
        WrappingPhase { step: ((self.step as nat + n) % (self.sample_rate as nat)) as u32, ..*self }
    }

    /// `advanced` starts at the current counter and takes one `stepped` per step.
    pub proof fn lemma_advanced(&self, n: nat)
        requires
            self.well_formed(),
        ensures
            self.advanced(0) == *self,
            self.advanced(n + 1) == self.advanced(n).stepped(),
            self.advanced(n).well_formed(),
    {
        let m = self.sample_rate as nat;
        let x = self.step as int + n;
        lemma_small_mod(self.step as nat, m);
        lemma_mod_bound(x, m as int);
        lemma_add_mod_noop(x, 1, m as int);
        if m > 1 {
            lemma_small_mod(1, m);
        }
        let k = x % (m as int);
        if k + 1 < m {
            lemma_small_mod((k + 1) as nat, m);
        } else {
            lemma_mod_self_0(m as int);
        }
    }

    /// The counter returns to where it was after `sample_rate` steps, so the
    /// waveform repeats every `sample_rate` samples.
    pub proof fn lemma_period(&self)
        requires
            self.well_formed(),
        ensures
            self.advanced(self.sample_rate as nat) == *self,
    {
        let m = self.sample_rate as int;
        lemma_mod_add_multiples_vanish(self.step as int, m);
        lemma_small_mod(self.step as nat, m as nat);
        assert(self.step as nat + self.sample_rate as nat == m + self.step as int);
    }

    /// A counter at step zero.
    pub fn new(freq: u32, sample_rate: u32) -> (r: Result<WrappingPhase, OscillatorError>)
        ensures
            sample_rate == 0 <==> r == Err::<WrappingPhase, OscillatorError>(
                OscillatorError::ZeroSampleRate,
            ),
            sample_rate > 0 ==> r == Ok::<WrappingPhase, OscillatorError>(
                (WrappingPhase { freq, sample_rate, step: 0 }),
            ),
    {
        if sample_rate == 0 {
            Err(OscillatorError::ZeroSampleRate)
        } else {
            Ok(WrappingPhase { freq, sample_rate, step: 0 })
        }
    }

    /// Returns the current phase numerator and advances the counter.
    pub fn advance(&mut self) -> (r: u32)
        requires
            old(self).well_formed(),
        ensures
            r as nat == old(self).position(),
            r < old(self).sample_rate,
            *final(self) == old(self).stepped(),
            final(self).well_formed(),
    {
        let r = phase_position(self.freq, self.step as u64, self.sample_rate);
        self.step = self.step + 1;
        if self.step >= self.sample_rate {
            self.step = 0;
        }
        r
    }
}

/// Sawtooth signal: rises linearly across each period, then drops back.
#[derive(Debug, Clone, Copy, PartialEq, Eq, Structural)]
pub struct Sawtooth {
    pub phase: WrappingPhase,
}

impl Sawtooth {
    /// A sawtooth of `freq` Hz sampled `sample_rate` times per second.
    pub fn new(freq: u32, sample_rate: u32) -> (r: Result<Sawtooth, OscillatorError>)
        ensures
            sample_rate == 0 <==> r == Err::<Sawtooth, OscillatorError>(
                OscillatorError::ZeroSampleRate,
            ),
            sample_rate > 0 ==> r == Ok::<Sawtooth, OscillatorError>(
                (Sawtooth { phase: WrappingPhase { freq, sample_rate, step: 0 } }),
            ),
    {
        match WrappingPhase::new(freq, sample_rate) {
            Ok(phase) => Ok(Sawtooth { phase }),
            Err(e) => Err(e),
        }
    }
}

impl Oscillator<u32> for Sawtooth {
    open spec fn well_formed(&self) -> bool {
        self.phase.well_formed()
    }

    open spec fn upcoming(&self) -> u32 {
        saw_fixed_spec(self.phase.position(), self.phase.sample_rate as nat)
    }

    open spec fn stepped(&self) -> Sawtooth {
        Sawtooth { phase: self.phase.stepped() }
    }

    open spec fn advanced(&self, n: nat) -> Sawtooth {
        Sawtooth { phase: self.phase.advanced(n) }
    }

    proof fn lemma_advanced(&self, n: nat) {
        self.phase.lemma_advanced(n);
        let next = <Sawtooth as Oscillator<u32>>::advanced(self, n + 1);
        let prev = <Sawtooth as Oscillator<u32>>::advanced(self, n);
        assert(next == <Sawtooth as Oscillator<u32>>::stepped(&prev));
    }

    fn next_sample(&mut self) -> (r: u32) {
        let sr = self.phase.sample_rate;
        let pos = self.phase.advance();
        assert(*self == <Sawtooth as Oscillator<u32>>::stepped(&*old(self)));
        saw_fixed(pos, sr)
    }
}

impl Oscillator<Level> for Sawtooth {
    open spec fn well_formed(&self) -> bool {
        self.phase.well_formed()
    }

    open spec fn upcoming(&self) -> Level {
        saw_level_spec(self.phase.position(), self.phase.sample_rate as nat)
    }

    open spec fn stepped(&self) -> Sawtooth {
        Sawtooth { phase: self.phase.stepped() }
    }

    open spec fn advanced(&self, n: nat) -> Sawtooth {
        Sawtooth { phase: self.phase.advanced(n) }
    }

    proof fn lemma_advanced(&self, n: nat) {
        self.phase.lemma_advanced(n);
        let next = <Sawtooth as Oscillator<Level>>::advanced(self, n + 1);
        let prev = <Sawtooth as Oscillator<Level>>::advanced(self, n);
        assert(next == <Sawtooth as Oscillator<Level>>::stepped(&prev));
    }

    fn next_sample(&mut self) -> (r: Level) {
        let sr = self.phase.sample_rate;
        let pos = self.phase.advance();
        assert(*self == <Sawtooth as Oscillator<Level>>::stepped(&*old(self)));
        saw_level(pos, sr)
    }
}

/// Square signal: high for the first half of each period, low for the second.
#[derive(Debug, Clone, Copy, PartialEq, Eq, Structural)]
pub struct Square {
    pub phase: WrappingPhase,
}

impl Square {
    /// A square wave of `freq` Hz sampled `sample_rate` times per second.
    pub fn new(freq: u32, sample_rate: u32) -> (r: Result<Square, OscillatorError>)
        ensures
            sample_rate == 0 <==> r == Err::<Square, OscillatorError>(
                OscillatorError::ZeroSampleRate,
            ),
            sample_rate > 0 ==> r == Ok::<Square, OscillatorError>(
                (Square { phase: WrappingPhase { freq, sample_rate, step: 0 } }),
            ),
    {
        match WrappingPhase::new(freq, sample_rate) {
            Ok(phase) => Ok(Square { phase }),
            Err(e) => Err(e),
        }
    }
}

impl Oscillator<u32> for Square {
    open spec fn well_formed(&self) -> bool {
        self.phase.well_formed()
    }

    open spec fn upcoming(&self) -> u32 {
        square_fixed_spec(self.phase.position(), self.phase.sample_rate as nat)
    }

    open spec fn stepped(&self) -> Square {
        Square { phase: self.phase.stepped() }
    }

    open spec fn advanced(&self, n: nat) -> Square {
        Square { phase: self.phase.advanced(n) }
    }

    proof fn lemma_advanced(&self, n: nat) {
        self.phase.lemma_advanced(n);
        let next = <Square as Oscillator<u32>>::advanced(self, n + 1);
        let prev = <Square as Oscillator<u32>>::advanced(self, n);
        assert(next == <Square as Oscillator<u32>>::stepped(&prev));
    }

    fn next_sample(&mut self) -> (r: u32) {
        let sr = self.phase.sample_rate;
        let pos = self.phase.advance();
        assert(*self == <Square as Oscillator<u32>>::stepped(&*old(self)));
        square_fixed(pos, sr)
    }
}

impl Oscillator<Level> for Square {
    open spec fn well_formed(&self) -> bool {
        self.phase.well_formed()
    }

    open spec fn upcoming(&self) -> Level {
        square_level_spec(self.phase.position(), self.phase.sample_rate as nat)
    }

    open spec fn stepped(&self) -> Square {
        Square { phase: self.phase.stepped() }
    }

    open spec fn advanced(&self, n: nat) -> Square {
        Square { phase: self.phase.advanced(n) }
    }

    proof fn lemma_advanced(&self, n: nat) {
        self.phase.lemma_advanced(n);
        let next = <Square as Oscillator<Level>>::advanced(self, n + 1);
        let prev = <Square as Oscillator<Level>>::advanced(self, n);
        assert(next == <Square as Oscillator<Level>>::stepped(&prev));
    }

    fn next_sample(&mut self) -> (r: Level) {
        let sr = self.phase.sample_rate;
        let pos = self.phase.advance();
        assert(*self == <Square as Oscillator<Level>>::stepped(&*old(self)));
        square_level(pos, sr)
    }
}

/// Sinusoidal signal. Its step counter never wraps; each call reports the
/// angle as an exact fraction of a full turn, from which the cosine is taken
/// by the caller.
#[derive(Debug, Clone, Copy, PartialEq, Eq, Structural)]
pub struct Sine {
    pub freq: u32,
    pub sample_rate: u32,
    pub step: u64,
}

impl Sine {
    /// A sine of `freq` Hz sampled `sample_rate` times per second.
    pub fn new(freq: u32, sample_rate: u32) -> (r: Result<Sine, OscillatorError>)
        ensures
            sample_rate == 0 <==> r == Err::<Sine, OscillatorError>(
                OscillatorError::ZeroSampleRate,
            ),
            sample_rate > 0 ==> r == Ok::<Sine, OscillatorError>(
                (Sine { freq, sample_rate, step: 0 }),
            ),
    {
        if sample_rate == 0 {
            Err(OscillatorError::ZeroSampleRate)
        } else {
            Ok(Sine { freq, sample_rate, step: 0 })
        }
    }

    /// Returns the numerator, over the sample rate, of the fraction of a turn
    /// `frac(step × freq / sample_rate)` at which the next sample
    /// `cos(2π × fraction)` is taken, and advances the step counter by one.
    pub fn next_angle(&mut self) -> (r: u32)
        requires
            old(self).sample_rate > 0,
            old(self).step < u64::MAX,
        ensures
            r as nat == phase_spec(old(self).freq as nat, old(self).step as nat, old(self).sample_rate as nat),
            r < old(self).sample_rate,
            *final(self) == (Sine { step: (old(self).step + 1) as u64, ..*old(self) }),
    {
        let r = phase_position(self.freq, self.step, self.sample_rate);
        self.step = self.step + 1;
        r
    }
}

} // verus!
