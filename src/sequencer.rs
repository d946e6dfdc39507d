//! The serial sequencer's program as a closed state table.
//!
//! One channel window is `FrameStart`, then `bit_depth - 1` pairs of
//! `BitOut` (shift a data bit, bit clock low) and `BitClock` (bit clock high),
//! then `Lsb`, which shifts the last bit and already shows the next channel on
//! the frame clock. The left window is followed by the right one, forever.
use vstd::prelude::*;
use crate::stream::Stream;

verus! {

/// The audio channel a window carries.
#[derive(Debug, Clone, Copy, PartialEq, Eq, Structural)]
pub enum Channel {
    Left,
    Right,
}

/// Position within a channel window.
#[derive(Debug, Clone, Copy, PartialEq, Eq, Structural)]
pub enum Slot {
    /// Loads the bit counter; bit clock high.
    FrameStart,
    /// Shifts one data bit out; bit clock low.
    BitOut,
    /// Raises the bit clock and counts the bit down.
    BitClock,
    /// Shifts the least significant bit; the frame clock turns to the next channel.
    Lsb,
}

/// One state of the sequencer program.
#[derive(Debug, Clone, Copy, PartialEq, Eq, Structural)]
pub struct SeqState {
    pub channel: Channel,
    pub slot: Slot,
    /// Data bits still to shift in the loop after the current one.
    pub count: u32,
}

/// What a state drives for its duration.
#[derive(Debug, Clone, Copy, PartialEq, Eq, Structural)]
pub struct Signals {
    /// A data bit is shifted out of the current word.
    pub shifts: bool,
    /// Bit clock level.
    pub bit_clock: bool,
    /// Frame clock level: low for left, high for right.
    pub frame_clock: bool,
    /// Duration in sequencer clock cycles.
    pub cycles: u32,
}

/// Clock cycles spent per data bit; the bit clock runs at the sequencer
/// clock divided by this.
pub const CYCLES_PER_BIT: u32 = 5;

/// Smallest and largest supported bit depth.
pub const MIN_BIT_DEPTH: u32 = 2;
pub const MAX_BIT_DEPTH: u32 = 32;

pub open spec fn other(c: Channel) -> Channel {
    match c {
        Channel::Left => Channel::Right,
        Channel::Right => Channel::Left,
    }
}

pub open spec fn is_right(c: Channel) -> bool {
    c == Channel::Right
}

pub open spec fn valid_depth(bit_depth: nat) -> bool {
    MIN_BIT_DEPTH <= bit_depth <= MAX_BIT_DEPTH
}

/// The state is reachable for the given bit depth.
pub open spec fn valid_state(bit_depth: nat, s: SeqState) -> bool {
    match s.slot {
        Slot::FrameStart | Slot::Lsb => s.count == 0,
        Slot::BitOut | Slot::BitClock => s.count + 2 <= bit_depth,
    }
}

pub open spec fn window_start(c: Channel) -> SeqState {
    SeqState { channel: c, slot: Slot::FrameStart, count: 0 }
}

pub open spec fn signals_spec(s: SeqState) -> Signals {
    match s.slot {
        Slot::FrameStart => Signals {
            shifts: false,
            bit_clock: true,
            frame_clock: is_right(s.channel),
            cycles: 3,
        },
        Slot::BitOut => Signals {
            shifts: true,
            bit_clock: false,
            frame_clock: is_right(s.channel),
            cycles: 2,
        },
        Slot::BitClock => Signals {
            shifts: false,
            bit_clock: true,
            frame_clock: is_right(s.channel),
            cycles: 3,
        },
        Slot::Lsb => Signals {
            shifts: true,
            bit_clock: false,
            frame_clock: is_right(other(s.channel)),
            cycles: 2,
        },
    }
}

pub open spec fn next_spec(bit_depth: nat, s: SeqState) -> SeqState {
    match s.slot {
        Slot::FrameStart => SeqState {
            channel: s.channel,
            slot: Slot::BitOut,
            count: (bit_depth - 2) as u32,
        },
        Slot::BitOut => SeqState { slot: Slot::BitClock, ..s },
        Slot::BitClock => if s.count > 0 {
            SeqState { slot: Slot::BitOut, count: (s.count - 1) as u32, ..s }
        } else {
            SeqState { slot: Slot::Lsb, count: 0, ..s }
        },
        Slot::Lsb => window_start(other(s.channel)),
    }
}

/// The state after `n` steps.
pub open spec fn run(bit_depth: nat, s: SeqState, n: nat) -> SeqState
    decreases n,
{
    if n == 0 {
        s
    } else {
        run(bit_depth, next_spec(bit_depth, s), (n - 1) as nat)
    }
}

/// Data bits shifted during `n` steps.
pub open spec fn shifted(bit_depth: nat, s: SeqState, n: nat) -> nat
    decreases n,
{
    if n == 0 {
        0
    } else {
        (if signals_spec(s).shifts { 1nat } else { 0nat }) + shifted(
            bit_depth,
            next_spec(bit_depth, s),
            (n - 1) as nat,
        )
    }
}

/// Clock cycles spent during `n` steps.
pub open spec fn cycles(bit_depth: nat, s: SeqState, n: nat) -> nat
    decreases n,
{
    if n == 0 {
        0
    } else {
        signals_spec(s).cycles as nat + cycles(bit_depth, next_spec(bit_depth, s), (n - 1) as nat)
    }
}

/// The first state of a frame: the left window's start.
pub fn frame_start() -> (r: SeqState)
    ensures
        r == window_start(Channel::Left),
{
    SeqState { channel: Channel::Left, slot: Slot::FrameStart, count: 0 }
}

/// The signals a state drives.
pub fn signals(s: SeqState) -> (r: Signals)
    ensures
        r == signals_spec(s),
{
    let frame = match s.channel {
        Channel::Left => false,
        Channel::Right => true,
    };
    match s.slot {
        Slot::FrameStart => Signals { shifts: false, bit_clock: true, frame_clock: frame, cycles: 3 },
        Slot::BitOut => Signals { shifts: true, bit_clock: false, frame_clock: frame, cycles: 2 },
        Slot::BitClock => Signals { shifts: false, bit_clock: true, frame_clock: frame, cycles: 3 },
        Slot::Lsb => Signals { shifts: true, bit_clock: false, frame_clock: !frame, cycles: 2 },
    }
}

/// The state that follows `s`.
pub fn next_state(bit_depth: u32, s: SeqState) -> (r: SeqState)
    requires
        valid_depth(bit_depth as nat),
        valid_state(bit_depth as nat, s),
    ensures
        r == next_spec(bit_depth as nat, s),
        valid_state(bit_depth as nat, r),
{
    match s.slot {
        Slot::FrameStart => SeqState { channel: s.channel, slot: Slot::BitOut, count: bit_depth - 2 },
        Slot::BitOut => SeqState { channel: s.channel, slot: Slot::BitClock, count: s.count },
        Slot::BitClock => if s.count > 0 {
            SeqState { channel: s.channel, slot: Slot::BitOut, count: s.count - 1 }
        } else {
            SeqState { channel: s.channel, slot: Slot::Lsb, count: 0 }
        },
        Slot::Lsb => {
            let c = match s.channel {
                Channel::Left => Channel::Right,
                Channel::Right => Channel::Left,
            };
            SeqState { channel: c, slot: Slot::FrameStart, count: 0 }
        },
    }
}

/// Running `a` steps and then `b` steps is running `a + b` steps, and the
/// shifted bits and cycles add up.
pub proof fn lemma_run_split(bit_depth: nat, s: SeqState, a: nat, b: nat)
    ensures
        run(bit_depth, s, a + b) == run(bit_depth, run(bit_depth, s, a), b),
        shifted(bit_depth, s, a + b) == shifted(bit_depth, s, a) + shifted(
            bit_depth,
            run(bit_depth, s, a),
            b,
        ),
        cycles(bit_depth, s, a + b) == cycles(bit_depth, s, a) + cycles(
            bit_depth,
            run(bit_depth, s, a),
            b,
        ),
    decreases a,
{
    if a > 0 {
        lemma_run_split(bit_depth, next_spec(bit_depth, s), (a - 1) as nat, b);
        assert((a + b - 1) as nat == (a - 1) as nat + b);
    }
}

/// From a `BitOut` state with counter `c`, the loop shifts `c + 1` bits in
/// `2(c + 1)` steps and reaches the window's `Lsb`.
proof fn lemma_bit_loop(bit_depth: nat, ch: Channel, c: nat)
    requires
        valid_depth(bit_depth),
        c + 2 <= bit_depth,
    ensures
        run(bit_depth, SeqState { channel: ch, slot: Slot::BitOut, count: c as u32 }, 2 * (c + 1))
            == (SeqState { channel: ch, slot: Slot::Lsb, count: 0 }),
        shifted(bit_depth, SeqState { channel: ch, slot: Slot::BitOut, count: c as u32 }, 2 * (c + 1))
            == c + 1,
        cycles(bit_depth, SeqState { channel: ch, slot: Slot::BitOut, count: c as u32 }, 2 * (c + 1))
            == CYCLES_PER_BIT * (c + 1),
    decreases c,
{
    let s0 = SeqState { channel: ch, slot: Slot::BitOut, count: c as u32 };
    let s1 = next_spec(bit_depth, s0);
    let s2 = next_spec(bit_depth, s1);
    lemma_run_split(bit_depth, s0, 2, 2 * c);
    assert(run(bit_depth, s0, 2) == s2) by {
        assert(run(bit_depth, s2, 0) == s2);
        assert(run(bit_depth, s1, 1) == s2);
    }
    assert(shifted(bit_depth, s0, 2) == 1) by {
        assert(shifted(bit_depth, s2, 0) == 0);
        assert(shifted(bit_depth, s1, 1) == 0);
    }
    assert(cycles(bit_depth, s0, 2) == 5) by {
        assert(cycles(bit_depth, s2, 0) == 0);
        assert(cycles(bit_depth, s1, 1) == 3);
    }
    if c > 0 {
        lemma_bit_loop(bit_depth, ch, (c - 1) as nat);
        assert(s2 == SeqState { channel: ch, slot: Slot::BitOut, count: (c - 1) as nat as u32 });
        assert(2 * c == 2 * ((c - 1) as nat + 1));
    } else {
        assert(run(bit_depth, s2, 0) == s2);
        assert(shifted(bit_depth, s2, 0) == 0);
        assert(cycles(bit_depth, s2, 0) == 0);
    }
    assert(2 * (c + 1) == 2 + 2 * c);
}

/// A channel window takes `2 × bit_depth` steps and `CYCLES_PER_BIT × bit_depth`
/// clock cycles, shifts exactly `bit_depth` bits, and hands over to the other
/// channel's window.
pub proof fn lemma_window(bit_depth: nat, ch: Channel)
    requires
        valid_depth(bit_depth),
    ensures
        run(bit_depth, window_start(ch), 2 * bit_depth) == window_start(other(ch)),
        shifted(bit_depth, window_start(ch), 2 * bit_depth) == bit_depth,
        cycles(bit_depth, window_start(ch), 2 * bit_depth) == CYCLES_PER_BIT * bit_depth,
{
    let s0 = window_start(ch);
    let s1 = next_spec(bit_depth, s0);
    let c = (bit_depth - 2) as nat;
    let lsb = SeqState { channel: ch, slot: Slot::Lsb, count: 0 };
    lemma_bit_loop(bit_depth, ch, c);
    lemma_run_split(bit_depth, s0, 1, 2 * (c + 1));
    lemma_run_split(bit_depth, s0, 1 + 2 * (c + 1), 1);
    assert(run(bit_depth, s0, 1) == s1) by {
        assert(run(bit_depth, s1, 0) == s1);
    }
    assert(shifted(bit_depth, s0, 1) == 0) by {
        assert(shifted(bit_depth, s1, 0) == 0);
    }
    assert(cycles(bit_depth, s0, 1) == 3) by {
        assert(cycles(bit_depth, s1, 0) == 0);
    }
    let after = next_spec(bit_depth, lsb);
    assert(run(bit_depth, lsb, 1) == after) by {
        assert(run(bit_depth, after, 0) == after);
    }
    assert(shifted(bit_depth, lsb, 1) == 1) by {
        assert(shifted(bit_depth, after, 0) == 0);
    }
    assert(cycles(bit_depth, lsb, 1) == 2) by {
        assert(cycles(bit_depth, after, 0) == 0);
    }
    assert(1 + 2 * (c + 1) + 1 == 2 * bit_depth);
}

/// A whole frame, left window then right window, takes `4 × bit_depth` steps,
/// shifts `2 × bit_depth` bits and returns to the start of the left window.
pub proof fn lemma_frame(bit_depth: nat)
    requires
        valid_depth(bit_depth),
    ensures
        run(bit_depth, window_start(Channel::Left), 4 * bit_depth) == window_start(Channel::Left),
        shifted(bit_depth, window_start(Channel::Left), 4 * bit_depth) == 2 * bit_depth,
        cycles(bit_depth, window_start(Channel::Left), 4 * bit_depth) == 2 * CYCLES_PER_BIT
            * bit_depth,
{
    lemma_window(bit_depth, Channel::Left);
    lemma_window(bit_depth, Channel::Right);
    lemma_run_split(bit_depth, window_start(Channel::Left), 2 * bit_depth, 2 * bit_depth);
    assert(2 * bit_depth + 2 * bit_depth == 4 * bit_depth);
    assert(CYCLES_PER_BIT * bit_depth + CYCLES_PER_BIT * bit_depth == 2 * CYCLES_PER_BIT
        * bit_depth) by (nonlinear_arith);
}

/// Every data bit is shifted while the bit clock is low, and the following
/// state raises it; every state but a window's last bit drives the frame
/// clock of its own channel.
pub proof fn lemma_clock_phases(bit_depth: nat, s: SeqState)
    requires
        valid_depth(bit_depth),
        valid_state(bit_depth, s),
    ensures
        signals_spec(s).shifts ==> !signals_spec(s).bit_clock && signals_spec(
            next_spec(bit_depth, s),
        ).bit_clock,
        s.slot != Slot::Lsb ==> signals_spec(s).frame_clock == is_right(s.channel),
        s.slot == Slot::Lsb ==> signals_spec(next_spec(bit_depth, s)).frame_clock
            == signals_spec(s).frame_clock,
        valid_state(bit_depth, next_spec(bit_depth, s)),
{
}

/// Bit `k` of `word`, counted from the most significant bit.
pub open spec fn word_bit(word: u32, k: nat) -> bool {
    (word >> ((31 - k) as u32)) & 1u32 == 1u32
}

/// The top bit of `word << k` is bit `k` of `word` from the top, and one
/// more shift moves on to the next bit.
proof fn lemma_shift_top(word: u32, k: u32)
    requires
        k < 32,
    ensures
        ((word << k) >> 31u32) & 1u32 == (word >> ((31 - k) as u32)) & 1u32,
        k < 31 ==> (word << k) << 1u32 == word << ((k + 1) as u32),
{
    assert(((word << k) >> 31u32) & 1u32 == (word >> ((31 - k) as u32)) & 1u32) by (bit_vector)
        requires k < 32;
    assert(k < 31 ==> (word << k) << 1u32 == word << ((k + 1) as u32)) by (bit_vector);
}

/// What the sequencer drives during one executed state.
#[derive(Debug, Clone, Copy, PartialEq, Eq, Structural)]
pub struct Output {
    pub signals: Signals,
    /// Data line level.
    pub data: bool,
}

/// The sequencer executing its program. Each data bit comes from the top of
/// the shift register; when the register is empty, the next word is pulled
/// from the stream automatically.
pub struct Sequencer {
    pub bit_depth: u32,
    pub state: SeqState,
    /// The rest of the current word, aligned to the top.
    pub shift_reg: u32,
    /// Bits of the current word not shifted yet.
    pub bits_left: u32,
    /// Data line level, held between shifts.
    pub data: bool,
    /// The word being shifted out.
    pub word: Ghost<u32>,
}

impl Sequencer {
    /// Bits of the current word shifted so far.
    pub open spec fn shifted_bits(&self) -> nat {
        (self.bit_depth - self.bits_left) as nat
    }

    /// The next executed state pulls a word first.
    pub open spec fn needs_word(&self) -> bool {
        signals_spec(self.state).shifts && self.bits_left == 0
    }

    pub open spec fn well_formed(&self) -> bool {
        let d = self.bit_depth as nat;
        &&& valid_depth(d)
        &&& valid_state(d, self.state)
        &&& self.bits_left <= self.bit_depth
        &&& match self.state.slot {
            Slot::FrameStart => self.bits_left == 0,
            Slot::BitOut => self.bits_left == (if self.state.count + 2 == d {
                0
            } else {
                self.state.count + 2
            }),
            Slot::BitClock => self.bits_left == self.state.count + 1,
            Slot::Lsb => self.bits_left == 1,
        }
        &&& self.bits_left > 0 ==> self.shift_reg == self.word@ << (self.shifted_bits() as u32)
    }

    /// A sequencer at the start of a frame with an empty shift register.
    pub fn new(bit_depth: u32) -> (r: Sequencer)
        requires
            valid_depth(bit_depth as nat),
        ensures
            r.well_formed(),
            r.bit_depth == bit_depth,
            r.state == window_start(Channel::Left),
            r.bits_left == 0,
            !r.data,
    {
        Sequencer {
            bit_depth,
            state: frame_start(),
            shift_reg: 0,
            bits_left: 0,
            data: false,
            word: Ghost(0),
        }
    }

    /// Executes one state. Where a data bit is due and the shift register is
    /// empty, pulls the next word from `stream` first; if none is left, the
    /// sequencer stalls: it returns `None` and holds everything as it was.
    pub fn tick(&mut self, stream: &mut Stream) -> (r: Option<Output>)
        requires
            old(self).well_formed(),
            old(stream).well_formed(),
        ensures
            final(self).well_formed(),
            final(stream).well_formed(),
            final(self).bit_depth == old(self).bit_depth,
            final(stream).transfer.submitted == old(stream).transfer.submitted,
            final(stream).spare == old(stream).spare,
            old(self).needs_word() && old(stream).transfer.pending().len() == 0 ==> {
                &&& r is None
                &&& *final(self) == *old(self)
                &&& *final(stream) == *old(stream)
            },
            !(old(self).needs_word() && old(stream).transfer.pending().len() == 0) ==> {
                &&& r is Some
                &&& r->0.signals == signals_spec(old(self).state)
                &&& final(self).state == next_spec(old(self).bit_depth as nat, old(self).state)
                &&& old(self).needs_word() ==> {
                    &&& final(self).word@ == old(stream).transfer.pending()[0]
                    &&& final(stream).transfer.emitted@ == old(stream).transfer.emitted@.push(
                        old(stream).transfer.pending()[0],
                    )
                    &&& final(stream).transfer.pending() == old(
                        stream,
                    ).transfer.pending().drop_first()
                    &&& r->0.data == word_bit(final(self).word@, 0)
                }
                &&& !old(self).needs_word() ==> {
                    &&& *final(stream) == *old(stream)
                    &&& final(self).word == old(self).word
                }
                &&& signals_spec(old(self).state).shifts && !old(self).needs_word() ==> r->0.data
                    == word_bit(old(self).word@, old(self).shifted_bits())
                &&& !signals_spec(old(self).state).shifts ==> r->0.data == old(self).data
                &&& final(self).data == r->0.data
            },
    {
        let sig = signals(self.state);
        if sig.shifts {
            if self.bits_left == 0 {
                match stream.pull() {
                    Some(w) => {
                        self.shift_reg = w;
                        self.bits_left = self.bit_depth;
                        self.word = Ghost(w);
                        proof {
                            assert(w << 0u32 == w) by (bit_vector);
                        }
                    },
                    None => {
                        return None;
                    },
                }
            }
            let k = self.bit_depth - self.bits_left;
            proof {
                lemma_shift_top(self.word@, k);
            }
            let bit = (self.shift_reg >> 31u32) & 1u32 == 1u32;
            self.shift_reg = self.shift_reg << 1u32;
            self.bits_left = self.bits_left - 1;
            self.data = bit;
        }
        self.state = next_state(self.bit_depth, self.state);
        Some(Output { signals: sig, data: self.data })
    }
}

/// Words are consumed one per channel window: the sequencer pulls exactly
/// at the first data bit of a window, and every other data bit of the window
/// comes from that word, in order from its most significant bit.
pub proof fn lemma_word_per_window(q: Sequencer)
    requires
        q.well_formed(),
    ensures
        q.needs_word() <==> (q.state.slot == Slot::BitOut && q.state.count + 2 == q.bit_depth),
        q.state.slot == Slot::BitOut && !q.needs_word() ==> q.shifted_bits() == q.bit_depth - (
        q.state.count + 2),
        q.state.slot == Slot::Lsb ==> q.shifted_bits() == q.bit_depth - 1,
{
}

} // verus!
