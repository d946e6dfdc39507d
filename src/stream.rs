//! The streaming control loop: polls the transfer engine, reclaims the
//! drained buffer, refills its left-channel slots from an oscillator and
//! submits it again.
use vstd::prelude::*;
use crate::oscillator::Oscillator;
use crate::transfer::{Transfer, TransferError};

verus! {

/// The value a refill leaves in slot `i`: even (left-channel) slots take the
/// oscillator's `i / 2`-th next sample divided by `attenuation`; odd
/// (right-channel) slots keep their old value.
pub open spec fn refilled_slot<O: Oscillator<u32>>(
    old_slot: u32,
    osc: O,
    attenuation: u32,
    i: int,
) -> u32 {
    if i % 2 == 0 {
        (osc.advanced((i / 2) as nat).upcoming() / attenuation) as u32
    } else {
        old_slot
    }
}

/// Number of left-channel slots in a buffer of `len` words.
pub open spec fn left_slots(len: nat) -> nat {
    (len + 1) / 2
}

/// Overwrites the left-channel (even) slots of `buffer` with successive
/// samples of `osc` divided by `attenuation`, leaving right-channel slots as
/// they were.
pub fn fill_left<O: Oscillator<u32>>(buffer: &mut Vec<u32>, osc: &mut O, attenuation: u32)
    requires
        old(osc).well_formed(),
        attenuation > 0,
    ensures
        final(buffer)@.len() == old(buffer)@.len(),
        forall|i: int|
            0 <= i < old(buffer)@.len() ==> #[trigger] final(buffer)@[i] == refilled_slot(
                old(buffer)@[i],
                *old(osc),
                attenuation,
                i,
            ),
        *final(osc) == old(osc).advanced(left_slots(old(buffer)@.len() as nat)),
        final(osc).well_formed(),
{
    let n = buffer.len();
    let mut i: usize = 0;
    proof {
        old(osc).lemma_advanced(0);
    }
    while i < n
        invariant
            n == buffer@.len(),
            buffer@.len() == old(buffer)@.len(),
            i <= n,
            attenuation > 0,
            old(osc).well_formed(),
            osc.well_formed(),
            *osc == old(osc).advanced(left_slots(i as nat)),
            forall|j: int|
                0 <= j < i ==> #[trigger] buffer@[j] == refilled_slot(
                    old(buffer)@[j],
                    *old(osc),
                    attenuation,
                    j,
                ),
            forall|j: int| i <= j < n ==> #[trigger] buffer@[j] == old(buffer)@[j],
        decreases n - i,
    {
        if i % 2 == 0 {
            proof {
                old(osc).lemma_advanced(left_slots(i as nat));
                assert(left_slots(i as nat) == i / 2);
                assert(left_slots((i + 1) as nat) == left_slots(i as nat) + 1);
            }
            let s = osc.next_sample();
            buffer.set(i, s / attenuation);
        } else {
            assert(left_slots((i + 1) as nat) == left_slots(i as nat));
        }
        i = i + 1;
    }
}

/// A running stream: the transfer engine and the buffer the control loop holds.
pub struct Stream {
    pub transfer: Transfer,
    /// The drained buffer, held by the control loop while it refills it.
    pub spare: Option<Vec<u32>>,
}

impl Stream {
    /// Buffers the control loop holds.
    pub open spec fn software_held(&self) -> nat {
        if self.spare is Some { 1 } else { 0 }
    }

    /// The control loop holds a buffer: it is refilling.
    pub open spec fn refilling(&self) -> bool {
        self.spare is Some
    }

    pub open spec fn well_formed(&self) -> bool {
        &&& self.transfer.well_formed()
        &&& self.transfer.held() + self.software_held() == 2
        &&& self.spare matches Some(b) ==> b@.len() == self.transfer.len
    }

    /// Starts streaming `first`, with `second` queued behind it. Both must
    /// have the transfer length `len`.
    pub fn start(first: Vec<u32>, second: Vec<u32>, len: usize) -> (r: Result<Stream, TransferError>)
        ensures
            r is Ok <==> first@.len() == len && second@.len() == len,
            r is Err ==> r == Err::<Stream, TransferError>(TransferError::SizeMismatch),
            r matches Ok(s) ==> {
                &&& s.well_formed()
                &&& !s.refilling()
                &&& s.transfer.len == len
                &&& s.transfer.first@ == first@
                &&& s.transfer.first_pos == 0
                &&& s.transfer.emitted@ == Seq::<u32>::empty()
                &&& s.transfer.submitted@ == first@ + second@
            },
    {
        if second.len() != len {
            return Err(TransferError::SizeMismatch);
        }
        match Transfer::start(first, len) {
            Ok(t) => {
                let mut t = t;
                match t.read_next(second) {
                    Ok(()) => Ok(Stream { transfer: t, spare: None }),
                    Err((e, _)) => Err(e),
                }
            },
            Err((e, _)) => Err(e),
        }
    }

    /// The engine side: the sequencer pulls the next word.
    pub fn pull(&mut self) -> (r: Option<u32>)
        requires
            old(self).well_formed(),
        ensures
            final(self).well_formed(),
            final(self).spare == old(self).spare,
            final(self).transfer.submitted == old(self).transfer.submitted,
            old(self).transfer.pending().len() > 0 ==> {
                &&& r == Some(old(self).transfer.pending()[0])
                &&& final(self).transfer.emitted@ == old(self).transfer.emitted@.push(
                    old(self).transfer.pending()[0],
                )
                &&& final(self).transfer.pending() == old(self).transfer.pending().drop_first()
            },
            old(self).transfer.pending().len() == 0 ==> r is None && *final(self) == *old(self),
    {
        self.transfer.pull()
    }

    /// Waiting to Refilling: when the engine reports the first buffer done,
    /// takes it back. Returns whether it did.
    pub fn reclaim(&mut self) -> (r: bool)
        requires
            old(self).well_formed(),
        ensures
            final(self).well_formed(),
            r == (!old(self).refilling() && old(self).transfer.done()),
            r ==> final(self).refilling() && final(self).spare->0@ == old(self).transfer.first@
                && final(self).transfer.submitted == old(self).transfer.submitted
                && final(self).transfer.emitted == old(self).transfer.emitted
                && final(self).transfer.pending() == old(self).transfer.pending(),
            !r ==> *final(self) == *old(self),
    {
        if self.spare.is_some() || !self.transfer.is_done() {
            return false;
        }
        let b = self.transfer.wait();
        self.spare = Some(b);
        true
    }

    /// Refills the held buffer's left-channel slots from `osc`.
    pub fn refill<O: Oscillator<u32>>(&mut self, osc: &mut O, attenuation: u32)
        requires
            old(self).well_formed(),
            old(self).refilling(),
            old(osc).well_formed(),
            attenuation > 0,
        ensures
            final(self).well_formed(),
            final(self).refilling(),
            final(self).transfer == old(self).transfer,
            final(self).spare->0@.len() == old(self).spare->0@.len(),
            forall|i: int|
                0 <= i < old(self).spare->0@.len() ==> #[trigger] final(self).spare->0@[i]
                    == refilled_slot(old(self).spare->0@[i], *old(osc), attenuation, i),
            *final(osc) == old(osc).advanced(left_slots(old(self).spare->0@.len() as nat)),
            final(osc).well_formed(),
    {
        let mut taken: Option<Vec<u32>> = None;
        std::mem::swap(&mut self.spare, &mut taken);
        match taken {
            Some(b) => {
                let mut b = b;
                fill_left(&mut b, osc, attenuation);
                self.spare = Some(b);
            },
            None => {},
        }
    }

    /// Refilling to Waiting: hands the held buffer back to the engine, queued
    /// behind the one draining.
    pub fn submit(&mut self)
        requires
            old(self).well_formed(),
            old(self).refilling(),
        ensures
            final(self).well_formed(),
            !final(self).refilling(),
            final(self).transfer.submitted@ == old(self).transfer.submitted@ + old(
                self,
            ).spare->0@,
            final(self).transfer.emitted == old(self).transfer.emitted,
            final(self).transfer.first == old(self).transfer.first,
            final(self).transfer.first_pos == old(self).transfer.first_pos,
    {
        let mut taken: Option<Vec<u32>> = None;
        std::mem::swap(&mut self.spare, &mut taken);
        match taken {
            Some(b) => {
                let res = self.transfer.read_next(b);
                match res {
                    Ok(()) => {},
                    Err(_) => {},
                }
            },
            None => {},
        }
    }

    /// One pass of the busy-poll loop: if the engine has drained a buffer,
    /// reclaims it, refills its left-channel slots and resubmits it.
    /// Returns whether a refill took place.
    pub fn poll<O: Oscillator<u32>>(&mut self, osc: &mut O, attenuation: u32) -> (r: bool)
        requires
            old(self).well_formed(),
            !old(self).refilling(),
            old(osc).well_formed(),
            attenuation > 0,
        ensures
            final(self).well_formed(),
            !final(self).refilling(),
            final(osc).well_formed(),
            r == old(self).transfer.done(),
            final(self).transfer.emitted == old(self).transfer.emitted,
            !r ==> *final(self) == *old(self) && *final(osc) == *old(osc),
            r ==> {
                let drained = old(self).transfer.first@;
                &&& *final(osc) == old(osc).advanced(left_slots(drained.len()))
                &&& exists|refilled: Seq<u32>|
                    {
                        &&& refilled.len() == drained.len()
                        &&& forall|i: int|
                            0 <= i < drained.len() ==> #[trigger] refilled[i] == refilled_slot(
                                drained[i],
                                *old(osc),
                                attenuation,
                                i,
                            )
                        &&& final(self).transfer.submitted@ == old(self).transfer.submitted@
                            + refilled
                    }
            },
    {
        if !self.reclaim() {
            return false;
        }
        self.refill(osc, attenuation);
        self.submit();
        true
    }
}

/// Buffer ownership: the engine and the control loop together hold exactly
/// the two buffers, the engine always holds the draining one, and while the
/// control loop refills, each side holds exactly one.
pub proof fn lemma_single_owner(s: Stream)
    requires
        s.well_formed(),
    ensures
        s.transfer.held() + s.software_held() == 2,
        s.transfer.held() >= 1,
        s.refilling() ==> s.transfer.held() == 1 && s.software_held() == 1,
        !s.refilling() ==> s.transfer.held() == 2 && s.software_held() == 0,
{
}

/// Once the words of two buffers `a` then `b` lead the submitted stream and
/// at least that many words have been streamed, the streamed words begin with
/// all of `a` followed by all of `b`, with nothing between or reordered.
pub proof fn lemma_two_drains(s: Stream, a: Seq<u32>, b: Seq<u32>)
    requires
        s.well_formed(),
        s.transfer.submitted@.len() >= a.len() + b.len(),
        s.transfer.submitted@.subrange(0, (a.len() + b.len()) as int) == a + b,
        s.transfer.emitted@.len() >= a.len() + b.len(),
    ensures
        s.transfer.emitted@.subrange(0, (a.len() + b.len()) as int) == a + b,
{
    crate::transfer::lemma_stream_order(s.transfer);
    let n = (a.len() + b.len()) as int;
    assert(s.transfer.emitted@.subrange(0, n) =~= s.transfer.submitted@.subrange(0, n));
}

} // verus!
