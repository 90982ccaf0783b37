//! Frame accumulator: absorbs capture chunks of any length and hands out
//! frames of one fixed length, oldest sample first.

use vstd::prelude::*;
use vstd::arithmetic::div_mod::lemma_fundamental_div_mod;
use vstd::arithmetic::div_mod::lemma_hoist_over_denominator;
use vstd::arithmetic::div_mod::lemma_mod_bound;
use vstd::arithmetic::mul::lemma_mul_is_distributive_add_other_way;
use crate::frame::frame_len;
use crate::frame::frame_samples;
use crate::util::Channels;

verus! {

/// Length of the longest prefix of `len` samples that consists of whole
/// frames of `frame` samples.
pub open spec fn whole_frames_len(len: nat, frame: nat) -> nat {
    (len / frame) * frame
}

/// Frame number `index` of a sample stream cut into frames of `frame`
/// samples, counting from zero.
pub open spec fn frame_at(stream: Seq<i16>, frame: nat, index: int) -> Seq<i16> {
    Seq::new(frame, |i: int| stream[index * frame + i])
}

/// The sample sequences of a run of frames.
pub open spec fn views(frames: Seq<Vec<i16>>) -> Seq<Seq<i16>> {
    frames.map_values(|frame: Vec<i16>| frame@)
}

/// The samples of a run of frames, concatenated in order.
pub open spec fn joined(frames: Seq<Vec<i16>>) -> Seq<i16> {
    views(frames).flatten()
}

/// One capture step on the model: `chunk` is appended to the pending samples,
/// every whole frame leaves as output, and the rest stays pending.
/// The result is `(output, pending)`.
pub open spec fn feed_step(pending: Seq<i16>, chunk: Seq<i16>, frame: nat) -> (Seq<i16>, Seq<i16>) {
    let all = pending + chunk;
    let cut = whole_frames_len(all.len(), frame) as int;
    (all.take(cut), all.skip(cut))
}

/// A run of capture steps on the model, one per chunk, with the outputs
/// concatenated. The result is `(output, pending)`.
pub open spec fn feed_chunks(pending: Seq<i16>, chunks: Seq<Seq<i16>>, frame: nat) -> (
    Seq<i16>,
    Seq<i16>,
)
    decreases chunks.len(),
{
    if chunks.len() == 0 {
        (Seq::empty(), pending)
    } else {
        let first = feed_step(pending, chunks[0], frame);
        let rest = feed_chunks(first.1, chunks.drop_first(), frame);
        (first.0 + rest.0, rest.1)
    }
}

/// Buffer of samples that do not yet form a whole frame.
pub struct FrameAccumulator {
    buffer: Vec<i16>,
    frame_len: usize,
}

impl View for FrameAccumulator {
    type V = Seq<i16>;

    /// The pending samples, oldest first.
    closed spec fn view(&self) -> Seq<i16> {
        self.buffer@
    }
}

impl FrameAccumulator {
    /// The number of samples in one frame.
    pub closed spec fn frame(&self) -> nat {
        self.frame_len as nat
    }

    /// Well-formedness: a frame holds at least one sample.
    pub closed spec fn wf(&self) -> bool {
        self.frame_len > 0
    }

    /// A well-formed accumulator has a positive frame length.
    pub proof fn frame_is_positive(self)
        requires
            self.wf(),
        ensures
            self.frame() > 0,
    {
    }

    /// An empty accumulator for frames of the fixed duration in the given
    /// layout.
    pub fn new(channels: Channels) -> (acc: FrameAccumulator)
        ensures
            acc.wf(),
            acc@ == Seq::<i16>::empty(),
            acc.frame() == frame_samples(channels),
    {
        FrameAccumulator { buffer: Vec::new(), frame_len: frame_len(channels) }
    }

    /// An empty accumulator for frames of `frame_len` samples, or nothing
    /// when `frame_len` is zero.
    pub fn with_frame_len(frame_len: usize) -> (acc: Option<FrameAccumulator>)
        ensures
            frame_len == 0 <==> acc.is_none(),
            acc.is_some() ==> acc.unwrap().wf() && acc.unwrap()@ == Seq::<i16>::empty()
                && acc.unwrap().frame() == frame_len,
    {
        if frame_len == 0 {
            None
        } else {
            Some(FrameAccumulator { buffer: Vec::new(), frame_len })
        }
    }

    /// Number of pending samples.
    pub fn pending_len(&self) -> (n: usize)
        ensures
            n == self@.len(),
    {
        self.buffer.len()
    }

    /// Number of samples in one frame.
    pub fn frame_len(&self) -> (n: usize)
        ensures
            n == self.frame(),
    {
        self.frame_len
    }

    /// Appends `samples` behind the pending samples.
    pub fn push(&mut self, samples: &[i16])
        requires
            old(self).wf(),
        ensures
            final(self).wf(),
            final(self)@ == old(self)@ + samples@,
            final(self).frame() == old(self).frame(),
    {
        let n: usize = samples.len();
        let mut i: usize = 0;
        while i < n
            invariant
                n == samples@.len(),
                i <= n,
                self.frame_len == old(self).frame_len,
                self.frame_len > 0,
                self.buffer@ == old(self).buffer@ + samples@.take(i as int),
            decreases n - i,
        {
            self.buffer.push(samples[i]);
            i += 1;
            assert(self.buffer@ =~= old(self).buffer@ + samples@.take(i as int));
        }
        assert(samples@.take(n as int) =~= samples@);
    }

    /// Removes and returns the oldest frame if a whole one is pending;
    /// otherwise returns nothing and leaves the pending samples untouched.
    pub fn try_take_frame(&mut self) -> (frame: Option<Vec<i16>>)
        requires
            old(self).wf(),
        ensures
            final(self).wf(),
            final(self).frame() == old(self).frame(),
            old(self)@.len() >= old(self).frame() <==> frame.is_some(),
            frame.is_some() ==> frame.unwrap()@ == old(self)@.take(old(self).frame() as int)
                && final(self)@ == old(self)@.skip(old(self).frame() as int),
            frame.is_none() ==> final(self)@ == old(self)@,
    {
        if self.buffer.len() < self.frame_len {
            return None;
        }
        let mut rest: Vec<i16> = self.buffer.split_off(self.frame_len);
        std::mem::swap(&mut self.buffer, &mut rest);
        Some(rest)
    }

    /// Removes and returns every whole pending frame, oldest first. Fewer
    /// samples than one frame stay pending.
    pub fn take_frames(&mut self) -> (frames: Vec<Vec<i16>>)
        requires
            old(self).wf(),
        ensures
            final(self).wf(),
            final(self).frame() == old(self).frame(),
            frames@.len() == old(self)@.len() / old(self).frame(),
            forall|j: int|
                0 <= j < frames@.len() ==> (#[trigger] frames@[j])@ == frame_at(
                    old(self)@,
                    old(self).frame(),
                    j,
                ),
            final(self)@ == old(self)@.skip(
                whole_frames_len(old(self)@.len(), old(self).frame()) as int,
            ),
            joined(frames@) == feed_step(old(self)@, Seq::empty(), old(self).frame()).0,
            final(self)@ == feed_step(old(self)@, Seq::empty(), old(self).frame()).1,
            final(self)@.len() < old(self).frame(),
    {
        let ghost start = self.buffer@;
        let ghost f = self.frame_len as int;
        let mut frames: Vec<Vec<i16>> = Vec::new();
        let total: usize = self.buffer.len();
        let mut taken: usize = 0;
        assert(frames@.len() * f == 0) by (nonlinear_arith)
            requires
                frames@.len() == 0,
        ;
        assert(views(frames@) =~= Seq::<Seq<i16>>::empty());
        assert(joined(frames@) =~= start.take(0));
        while self.buffer.len() >= self.frame_len
            invariant
                self.frame_len == f,
                f > 0,
                start == old(self).buffer@,
                start.len() == total,
                taken == frames@.len() * f,
                taken <= start.len(),
                self.buffer@ == start.skip(taken as int),
                joined(frames@) == start.take(taken as int),
                forall|j: int|
                    0 <= j < frames@.len() ==> (#[trigger] frames@[j])@ == frame_at(
                        start,
                        f as nat,
                        j,
                    ),
            decreases self.buffer@.len(),
        {
            let ghost before = self.buffer@;
            let ghost count = frames@.len() as int;
            let ghost earlier = frames@;
            assert(taken + f <= start.len());
            let mut rest: Vec<i16> = self.buffer.split_off(self.frame_len);
            std::mem::swap(&mut self.buffer, &mut rest);
            proof {
                assert((count + 1) * f == count * f + f) by (nonlinear_arith);
                assert(rest@ =~= frame_at(start, f as nat, count));
                assert(self.buffer@ =~= start.skip(taken + f));
            }
            frames.push(rest);
            proof {
                assert(views(frames@) =~= views(earlier).push(rest@));
                views(earlier).lemma_flatten_push(rest@);
                assert(joined(frames@) =~= start.take(taken + f));
            }
            taken = taken + self.frame_len;
        }
        proof {
            let len = start.len() as int;
            let q = frames@.len() as int;
            assert(len == q * f + (len - taken));
            lemma_fundamental_div_mod(len, f);
            lemma_mod_bound(len, f);
            assert(q == len / f) by (nonlinear_arith)
                requires
                    f > 0,
                    0 <= len - q * f < f,
                    len == f * (len / f) + len % f,
                    0 <= len % f < f,
            ;
            assert(start + Seq::<i16>::empty() =~= start);
        }
        frames
    }

    /// One capture step: appends `samples`, then removes and returns every
    /// whole frame, oldest first.
    pub fn feed(&mut self, samples: &[i16]) -> (frames: Vec<Vec<i16>>)
        requires
            old(self).wf(),
        ensures
            final(self).wf(),
            final(self).frame() == old(self).frame(),
            frames@.len() == (old(self)@ + samples@).len() / old(self).frame(),
            forall|j: int|
                0 <= j < frames@.len() ==> (#[trigger] frames@[j])@ == frame_at(
                    old(self)@ + samples@,
                    old(self).frame(),
                    j,
                ),
            joined(frames@) == feed_step(old(self)@, samples@, old(self).frame()).0,
            final(self)@ == feed_step(old(self)@, samples@, old(self).frame()).1,
            final(self)@.len() < old(self).frame(),
    {
        self.push(samples);
        self.take_frames()
    }
}

/// However a stream of samples is cut into chunks, feeding the chunks one by
/// one into a drained accumulator yields the same output, in the same order,
/// and leaves the same samples pending as feeding the whole stream at once.
pub proof fn chunking_does_not_matter(pending: Seq<i16>, chunks: Seq<Seq<i16>>, frame: nat)
    requires
        frame > 0,
        pending.len() < frame,
    ensures
        feed_chunks(pending, chunks, frame) == feed_step(pending, chunks.flatten(), frame),
    decreases chunks.len(),
{
    let f = frame as int;
    if chunks.len() == 0 {
        assert(chunks.flatten() =~= Seq::<i16>::empty());
        let all = pending + Seq::<i16>::empty();
        assert(all =~= pending);
        assert(all.len() / frame == 0) by (nonlinear_arith)
            requires
                0 <= all.len() < frame,
        ;
        assert(all.take(0) =~= Seq::<i16>::empty());
        assert(all.skip(0) =~= pending);
    } else {
        let a = pending + chunks[0];
        let cut1 = whole_frames_len(a.len(), frame) as int;
        let first = feed_step(pending, chunks[0], frame);
        let tail = chunks.drop_first();
        lemma_fundamental_div_mod(a.len() as int, f);
        lemma_mod_bound(a.len() as int, f);
        assert(cut1 == f * (a.len() as int / f)) by (nonlinear_arith)
            requires
                cut1 == (a.len() as int / f) * f,
        ;
        assert(first.1.len() < frame);
        chunking_does_not_matter(first.1, tail, frame);
        let b = first.1 + tail.flatten();
        let cut2 = whole_frames_len(b.len(), frame) as int;
        let t = pending + chunks.flatten();
        assert(chunks.flatten() =~= chunks[0] + tail.flatten());
        assert(t =~= a.take(cut1) + b);
        let cut = whole_frames_len(t.len(), frame) as int;
        let q1 = a.len() as int / f;
        lemma_hoist_over_denominator(b.len() as int, q1, frame);
        assert(t.len() == b.len() + q1 * f);
        lemma_mul_is_distributive_add_other_way(f, b.len() as int / f, q1);
        assert(cut == cut1 + cut2);
        lemma_fundamental_div_mod(b.len() as int, f);
        lemma_mod_bound(b.len() as int, f);
        assert(cut2 <= b.len()) by (nonlinear_arith)
            requires
                cut2 == (b.len() as int / f) * f,
                b.len() == f * (b.len() as int / f) + b.len() as int % f,
                0 <= b.len() as int % f,
        ;
        assert(t.take(cut) =~= a.take(cut1) + b.take(cut2));
        assert(t.skip(cut) =~= b.skip(cut2));
    }
}

/// What one capture step hands out is a whole number of frames, and together
/// with what stays pending it is exactly what was pending plus the chunk:
/// nothing is lost, duplicated or reordered.
pub proof fn feed_step_conserves(pending: Seq<i16>, chunk: Seq<i16>, frame: nat)
    requires
        frame > 0,
    ensures
        feed_step(pending, chunk, frame).0 + feed_step(pending, chunk, frame).1 == pending + chunk,
        feed_step(pending, chunk, frame).0.len() % frame == 0,
        feed_step(pending, chunk, frame).1.len() < frame,
{
    let all = pending + chunk;
    let f = frame as int;
    let cut = whole_frames_len(all.len(), frame) as int;
    lemma_fundamental_div_mod(all.len() as int, f);
    lemma_mod_bound(all.len() as int, f);
    assert(cut == f * (all.len() as int / f)) by (nonlinear_arith)
        requires
            cut == (all.len() as int / f) * f,
    ;
    assert(all.take(cut) + all.skip(cut) =~= all);
    vstd::arithmetic::div_mod::lemma_mod_multiples_basic(all.len() as int / f, f);
}

} // verus!
