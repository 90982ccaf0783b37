//! Playback feeder: answers a playback request for an exact number of
//! samples from whatever the jitter buffer holds, padding with silence.

use vstd::prelude::*;
use crate::counter::bumped;
use crate::jitter::dequeue_step;
use crate::jitter::JitterBuffer;

verus! {

/// The answer to a request for `requested` samples when `available` are
/// buffered: the buffered samples in order as far as they reach, then
/// silence.
pub open spec fn padded(available: Seq<i16>, requested: nat) -> Seq<i16> {
    Seq::new(
        requested,
        |i: int|
            if i < available.len() {
                available[i]
            } else {
                0i16
            },
    )
}

/// Draws playback samples from a jitter buffer and counts the requests it
/// could not fully serve.
pub struct PlaybackFeeder {
    underflows: u64,
}

impl PlaybackFeeder {
    /// The number of requests that had to be padded with silence so far.
    pub closed spec fn underflows(&self) -> u64 {
        self.underflows
    }

    /// A feeder that has seen no underflow.
    pub fn new() -> (feeder: PlaybackFeeder)
        ensures
            feeder.underflows() == 0,
    {
        PlaybackFeeder { underflows: 0 }
    }

    /// Number of requests that had to be padded with silence so far.
    pub fn underflow_count(&self) -> (n: u64)
        ensures
            n == self.underflows(),
    {
        self.underflows
    }

    /// Returns exactly `requested` samples: the oldest buffered samples,
    /// removed from `source`, followed by zero samples for any shortfall. A
    /// shortfall is counted as one underflow.
    pub fn pull(&mut self, source: &mut JitterBuffer, requested: usize) -> (output: Vec<i16>)
        requires
            old(source).wf(),
        ensures
            final(source).wf(),
            final(source).frame() == old(source).frame(),
            final(source).ceiling() == old(source).ceiling(),
            final(source).discarded() == old(source).discarded(),
            final(source)@ == dequeue_step(old(source)@, requested as nat).1,
            output@ == padded(old(source)@, requested as nat),
            output@.len() == requested,
            final(self).underflows() == if old(source)@.len() < requested {
                bumped(old(self).underflows(), 1)
            } else {
                old(self).underflows()
            },
    {
        let mut output: Vec<i16> = source.dequeue(requested);
        let got: usize = output.len();
        if got < requested {
            self.underflows = self.underflows.saturating_add(1);
            while output.len() < requested
                invariant
                    got <= output@.len() <= requested,
                    got == old(source)@.len(),
                    forall|i: int| 0 <= i < got ==> output@[i] == old(source)@[i],
                    forall|i: int| got <= i < output@.len() ==> output@[i] == 0i16,
                decreases requested - output@.len(),
            {
                output.push(0);
            }
        }
        assert(output@ =~= padded(old(source)@, requested as nat));
        output
    }

    /// Overwrites `out` with the oldest buffered samples, removed from
    /// `source`, followed by zero samples for any shortfall. The length of
    /// `out` is the number of samples requested and does not change; nothing
    /// is allocated. A shortfall is counted as one underflow.
    pub fn fill(&mut self, source: &mut JitterBuffer, out: &mut Vec<i16>)
        requires
            old(source).wf(),
        ensures
            final(source).wf(),
            final(source).frame() == old(source).frame(),
            final(source).ceiling() == old(source).ceiling(),
            final(source).discarded() == old(source).discarded(),
            final(source)@ == dequeue_step(old(source)@, old(out)@.len()).1,
            final(out)@ == padded(old(source)@, old(out)@.len()),
            final(self).underflows() == if old(source)@.len() < old(out)@.len() {
                bumped(old(self).underflows(), 1)
            } else {
                old(self).underflows()
            },
    {
        let requested: usize = out.len();
        let got: usize = source.dequeue_into(out);
        if got < requested {
            self.underflows = self.underflows.saturating_add(1);
            let mut i: usize = got;
            while i < requested
                invariant
                    got <= i <= requested,
                    got == old(source)@.len(),
                    out@.len() == requested,
                    forall|k: int| 0 <= k < got ==> out@[k] == old(source)@[k],
                    forall|k: int| got <= k < i ==> out@[k] == 0i16,
                decreases requested - i,
            {
                out[i] = 0;
                i += 1;
            }
        }
        assert(out@ =~= padded(old(source)@, requested as nat));
    }
}

} // verus!
