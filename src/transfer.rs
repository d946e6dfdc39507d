//! Double-buffer transfer engine.
//!
//! The engine streams the words of the buffer it drains, one per pull by
//! the sequencer, and continues without a gap with the buffer submitted
//! through [`Transfer::read_next`]. Buffers move by value: software holds a
//! buffer only after [`Transfer::wait`] hands the drained one back.
use vstd::prelude::*;

verus! {

/// Why the engine refused a buffer. The refused buffer is handed back with it.
#[derive(Debug, Clone, Copy, PartialEq, Eq, Structural)]
pub enum TransferError {
    /// The buffer's length differs from the configured transfer length.
    SizeMismatch,
    /// A next buffer is already queued behind the one draining.
    Busy,
}

/// A running double-buffered transfer.
pub struct Transfer {
    /// Configured transfer length in words.
    pub len: usize,
    /// The buffer whose completion `is_done` reports.
    pub first: Vec<u32>,
    /// Words of `first` already streamed.
    pub first_pos: usize,
    /// The buffer queued behind `first`.
    pub second: Option<Vec<u32>>,
    /// Words of `second` already streamed (only once `first` is drained).
    pub second_pos: usize,
    /// Every word streamed so far, in order.
    pub emitted: Ghost<Seq<u32>>,
    /// Every word of every buffer submitted so far, in submission order.
    pub submitted: Ghost<Seq<u32>>,
}

impl Transfer {
    /// Words the engine holds and has not streamed yet, in streaming order.
    pub open spec fn pending(&self) -> Seq<u32> {
        self.first@.subrange(self.first_pos as int, self.first@.len() as int) + match self.second {
            Some(b) => b@.subrange(self.second_pos as int, b@.len() as int),
            None => Seq::<u32>::empty(),
        }
    }

    /// Number of buffers the engine holds: the draining one, and the queued one if any.
    pub open spec fn held(&self) -> nat {
        if self.second is Some { 2 } else { 1 }
    }

    pub open spec fn well_formed(&self) -> bool {
        &&& self.first@.len() == self.len
        &&& self.first_pos <= self.len
        &&& match self.second {
            Some(b) => b@.len() == self.len && self.second_pos <= self.len && (self.second_pos > 0
                ==> self.first_pos == self.len),
            None => self.second_pos == 0,
        }
        &&& self.submitted@ == self.emitted@ + self.pending()
    }

    /// The first buffer has been streamed completely.
    pub open spec fn done(&self) -> bool {
        self.first_pos == self.len
    }

    /// Starts streaming `buffer`, whose length must be the transfer length.
    pub fn start(buffer: Vec<u32>, len: usize) -> (r: Result<Transfer, (TransferError, Vec<u32>)>)
        ensures
            r is Ok <==> buffer@.len() == len,
            r matches Ok(t) ==> {
                &&& t.well_formed()
                &&& t.len == len
                &&& t.first@ == buffer@
                &&& t.first_pos == 0
                &&& t.second is None
                &&& t.emitted@ == Seq::<u32>::empty()
                &&& t.submitted@ == buffer@
            },
            r matches Err((e, b)) ==> e == TransferError::SizeMismatch && b@ == buffer@,
    {
        if buffer.len() != len {
            return Err((TransferError::SizeMismatch, buffer));
        }
        let ghost words = buffer@;
        let t = Transfer {
            len,
            first: buffer,
            first_pos: 0,
            second: None,
            second_pos: 0,
            emitted: Ghost(Seq::empty()),
            submitted: Ghost(words),
        };
        assert(t.pending() =~= words);
        assert(t.submitted@ =~= t.emitted@ + t.pending());
        Ok(t)
    }

    /// Non-blocking poll: has the first buffer been streamed completely?
    pub fn is_done(&self) -> (r: bool)
        requires
            self.well_formed(),
        ensures
            r == self.done(),
    {
        self.first_pos == self.len
    }

    /// Queues `buffer` to be streamed right after the draining one.
    pub fn read_next(&mut self, buffer: Vec<u32>) -> (r: Result<(), (TransferError, Vec<u32>)>)
        requires
            old(self).well_formed(),
        ensures
            final(self).well_formed(),
            r is Ok <==> old(self).second is None && buffer@.len() == old(self).len,
            r is Ok ==> {
                &&& final(self).second == Some(buffer)
                &&& final(self).first == old(self).first
                &&& final(self).first_pos == old(self).first_pos
                &&& final(self).second_pos == 0
                &&& final(self).len == old(self).len
                &&& final(self).emitted == old(self).emitted
                &&& final(self).submitted@ == old(self).submitted@ + buffer@
            },
            r matches Err((e, b)) ==> {
                &&& *final(self) == *old(self)
                &&& b@ == buffer@
                &&& e == (if old(self).second is Some {
                    TransferError::Busy
                } else {
                    TransferError::SizeMismatch
                })
            },
    {
        if self.second.is_some() {
            return Err((TransferError::Busy, buffer));
        }
        if buffer.len() != self.len {
            return Err((TransferError::SizeMismatch, buffer));
        }
        let ghost words = buffer@;
        let ghost before = self.pending();
        self.second = Some(buffer);
        self.second_pos = 0;
        self.submitted = Ghost(self.submitted@ + words);
        assert(words.subrange(0, words.len() as int) =~= words);
        assert(self.pending() =~= before + words);
        assert(self.submitted@ =~= self.emitted@ + self.pending());
        Ok(())
    }

    /// Hands the drained first buffer back; the queued buffer becomes the first.
    pub fn wait(&mut self) -> (r: Vec<u32>)
        requires
            old(self).well_formed(),
            old(self).done(),
            old(self).second is Some,
        ensures
            final(self).well_formed(),
            r@ == old(self).first@,
            Some(final(self).first) == old(self).second,
            final(self).first_pos == old(self).second_pos,
            final(self).second is None,
            final(self).second_pos == 0,
            final(self).len == old(self).len,
            final(self).emitted == old(self).emitted,
            final(self).submitted == old(self).submitted,
            final(self).pending() == old(self).pending(),
    {
        let mut taken: Option<Vec<u32>> = None;
        std::mem::swap(&mut self.second, &mut taken);
        match taken {
            Some(next) => {
                let mut drained = next;
                std::mem::swap(&mut self.first, &mut drained);
                self.first_pos = self.second_pos;
                self.second_pos = 0;
                let ghost f = old(self).first@;
                assert(f.subrange(f.len() as int, f.len() as int) =~= Seq::<u32>::empty());
                assert(self.pending() =~= old(self).pending());
                drained
            },
            None => Vec::new(),
        }
    }

    /// The sequencer pulls the next word: from the first buffer while it
    /// lasts, then from the queued one. `None` is a stall: nothing is left.
    pub fn pull(&mut self) -> (r: Option<u32>)
        requires
            old(self).well_formed(),
        ensures
            final(self).well_formed(),
            final(self).submitted == old(self).submitted,
            final(self).len == old(self).len,
            final(self).first == old(self).first,
            final(self).second == old(self).second,
            old(self).pending().len() > 0 ==> {
                &&& r == Some(old(self).pending()[0])
                &&& final(self).emitted@ == old(self).emitted@.push(old(self).pending()[0])
                &&& final(self).pending() == old(self).pending().drop_first()
            },
            old(self).pending().len() == 0 ==> r is None && *final(self) == *old(self),
    {
        let ghost p = self.pending();
        if self.first_pos < self.first.len() {
            let w = self.first[self.first_pos];
            self.first_pos = self.first_pos + 1;
            self.emitted = Ghost(self.emitted@.push(w));
            assert(self.pending() =~= p.drop_first());
            assert(self.submitted@ =~= self.emitted@ + self.pending());
            Some(w)
        } else {
            match &self.second {
                Some(b) => {
                    if self.second_pos < b.len() {
                        let w = b[self.second_pos];
                        self.second_pos = self.second_pos + 1;
                        self.emitted = Ghost(self.emitted@.push(w));
                        assert(self.pending() =~= p.drop_first());
                        assert(self.submitted@ =~= self.emitted@ + self.pending());
                        Some(w)
                    } else {
                        assert(p =~= Seq::<u32>::empty());
                        None
                    }
                },
                None => {
                    assert(p =~= Seq::<u32>::empty());
                    None
                },
            }
        }
    }
}

/// The words streamed so far are always a prefix of the words submitted, in
/// submission order: no word is skipped, repeated or reordered.
pub proof fn lemma_stream_order(t: Transfer)
    requires
        t.well_formed(),
    ensures
        t.emitted@.len() <= t.submitted@.len(),
        t.emitted@ == t.submitted@.subrange(0, t.emitted@.len() as int),
        t.submitted@ == t.emitted@ + t.pending(),
{
    assert(t.emitted@ =~= t.submitted@.subrange(0, t.emitted@.len() as int));
}

} // verus!
