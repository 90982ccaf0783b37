//! Jitter buffer: a bounded first-in first-out queue of decoded samples
//! between the receiving side and the playback side.

use vstd::prelude::*;
use vstd::arithmetic::div_mod::lemma_fundamental_div_mod;
use vstd::arithmetic::div_mod::lemma_mod_bound;
use crate::counter::bumped;

verus! {

/// Number of whole frames that must leave a buffer of `len` samples to bring
/// it down to `ceiling` samples or fewer.
pub open spec fn discard_frames(len: nat, ceiling: nat, frame: nat) -> nat {
    if len <= ceiling {
        0
    } else {
        let excess = (len - ceiling) as nat;
        if excess % frame == 0 {
            excess / frame
        } else {
            excess / frame + 1
        }
    }
}

/// One enqueue on the model: the frame goes to the tail, then the oldest
/// whole frames leave until the ceiling holds again.
pub open spec fn enqueue_step(buffered: Seq<i16>, frame: Seq<i16>, ceiling: nat, frame_len: nat) -> Seq<
    i16,
> {
    let all = buffered + frame;
    all.skip((discard_frames(all.len(), ceiling, frame_len) * frame_len) as int)
}

/// A run of enqueues on the model, in the order of `frames`.
pub open spec fn enqueue_all(
    buffered: Seq<i16>,
    frames: Seq<Seq<i16>>,
    ceiling: nat,
    frame_len: nat,
) -> Seq<i16>
    decreases frames.len(),
{
    if frames.len() == 0 {
        buffered
    } else {
        enqueue_all(
            enqueue_step(buffered, frames[0], ceiling, frame_len),
            frames.drop_first(),
            ceiling,
            frame_len,
        )
    }
}

/// Number of frames discarded over a run of enqueues on the model.
pub open spec fn discards_all(
    buffered: Seq<i16>,
    frames: Seq<Seq<i16>>,
    ceiling: nat,
    frame_len: nat,
) -> nat
    decreases frames.len(),
{
    if frames.len() == 0 {
        0
    } else {
        discard_frames((buffered + frames[0]).len(), ceiling, frame_len) + discards_all(
            enqueue_step(buffered, frames[0], ceiling, frame_len),
            frames.drop_first(),
            ceiling,
            frame_len,
        )
    }
}

/// Whether every frame of the run holds exactly `frame_len` samples.
pub open spec fn uniform(frames: Seq<Seq<i16>>, frame_len: nat) -> bool {
    forall|i: int| 0 <= i < frames.len() ==> (#[trigger] frames[i]).len() == frame_len
}

/// By how many frames `total` frames exceed a capacity of `capacity` frames.
pub open spec fn excess_frames(total: nat, capacity: nat) -> nat {
    if total > capacity {
        (total - capacity) as nat
    } else {
        0
    }
}

/// Number of samples a request for `requested` samples gets from `available`
/// buffered ones.
pub open spec fn granted(available: nat, requested: nat) -> nat {
    if requested <= available {
        requested
    } else {
        available
    }
}

/// One dequeue on the model. The result is `(output, remaining)`.
pub open spec fn dequeue_step(buffered: Seq<i16>, requested: nat) -> (Seq<i16>, Seq<i16>) {
    let n = granted(buffered.len(), requested) as int;
    (buffered.take(n), buffered.skip(n))
}

/// A run of dequeues on the model, one per request, with the outputs
/// concatenated. The result is `(output, remaining)`.
pub open spec fn dequeue_all(buffered: Seq<i16>, requests: Seq<nat>) -> (Seq<i16>, Seq<i16>)
    decreases requests.len(),
{
    if requests.len() == 0 {
        (Seq::empty(), buffered)
    } else {
        let first = dequeue_step(buffered, requests[0]);
        let rest = dequeue_all(first.1, requests.drop_first());
        (first.0 + rest.0, rest.1)
    }
}

/// Bounded queue of decoded samples, consumed strictly in arrival order.
pub struct JitterBuffer {
    samples: Vec<i16>,
    frame_len: usize,
    ceiling: usize,
    discarded: u64,
}

impl View for JitterBuffer {
    type V = Seq<i16>;

    /// The buffered samples, oldest first.
    closed spec fn view(&self) -> Seq<i16> {
        self.samples@
    }
}

impl JitterBuffer {
    /// The number of samples in one frame, the unit in which overflow is
    /// discarded and counted.
    pub closed spec fn frame(&self) -> nat {
        self.frame_len as nat
    }

    /// The largest number of samples the buffer holds between two calls.
    pub closed spec fn ceiling(&self) -> nat {
        self.ceiling as nat
    }

    /// The number of frames discarded on overflow so far.
    pub closed spec fn discarded(&self) -> u64 {
        self.discarded
    }

    /// Well-formedness: the ceiling is at least one frame of at least one
    /// sample, and the buffered samples respect it.
    pub closed spec fn wf(&self) -> bool {
        &&& 0 < self.frame_len <= self.ceiling
        &&& self.samples@.len() <= self.ceiling
    }

    /// What well-formedness means over the public model.
    pub proof fn wf_bounds(self)
        requires
            self.wf(),
        ensures
            0 < self.frame() <= self.ceiling(),
            self@.len() <= self.ceiling(),
    {
    }

    /// An empty buffer whose ceiling is `ceiling_frames` frames of
    /// `frame_len` samples, or nothing when either is zero or the ceiling in
    /// samples does not fit the machine word.
    pub fn new(frame_len: usize, ceiling_frames: usize) -> (buffer: Option<JitterBuffer>)
        ensures
            buffer.is_some() <==> frame_len > 0 && ceiling_frames > 0 && ceiling_frames * frame_len
                <= usize::MAX,
            buffer.is_some() ==> {
                let b = buffer.unwrap();
                &&& b.wf()
                &&& b@ == Seq::<i16>::empty()
                &&& b.frame() == frame_len
                &&& b.ceiling() == ceiling_frames * frame_len
                &&& b.discarded() == 0
            },
    {
        if frame_len == 0 || ceiling_frames == 0 {
            return None;
        }
        match ceiling_frames.checked_mul(frame_len) {
            None => None,
            Some(ceiling) => {
                assert(frame_len <= ceiling_frames * frame_len) by (nonlinear_arith)
                    requires
                        frame_len > 0,
                        ceiling_frames > 0,
                ;
                Some(JitterBuffer { samples: Vec::new(), frame_len, ceiling, discarded: 0 })
            },
        }
    }

    /// Number of buffered samples.
    pub fn len(&self) -> (n: usize)
        ensures
            n == self@.len(),
    {
        self.samples.len()
    }

    /// Number of frames discarded on overflow so far.
    pub fn overflow_count(&self) -> (n: u64)
        ensures
            n == self.discarded(),
    {
        self.discarded
    }

    /// Appends `frame` at the tail. If the buffer then exceeds its ceiling,
    /// the oldest whole frames are discarded until it does not, and each
    /// discarded frame is counted.
    pub fn enqueue(&mut self, frame: &[i16])
        requires
            old(self).wf(),
        ensures
            final(self).wf(),
            final(self).frame() == old(self).frame(),
            final(self).ceiling() == old(self).ceiling(),
            final(self)@ == enqueue_step(
                old(self)@,
                frame@,
                old(self).ceiling(),
                old(self).frame(),
            ),
            final(self).discarded() == bumped(
                old(self).discarded(),
                discard_frames(
                    (old(self)@ + frame@).len(),
                    old(self).ceiling(),
                    old(self).frame(),
                ),
            ),
            (old(self)@ + frame@).len() <= old(self).ceiling() ==> final(self)@ == old(self)@
                + frame@ && final(self).discarded() == old(self).discarded(),
    {
        let n: usize = frame.len();
        let mut i: usize = 0;
        while i < n
            invariant
                n == frame@.len(),
                i <= n,
                self.frame_len == old(self).frame_len,
                self.ceiling == old(self).ceiling,
                self.discarded == old(self).discarded,
                self.samples@ == old(self).samples@ + frame@.take(i as int),
            decreases n - i,
        {
            self.samples.push(frame[i]);
            i += 1;
            assert(self.samples@ =~= old(self).samples@ + frame@.take(i as int));
        }
        assert(frame@.take(n as int) =~= frame@);
        let ghost all = self.samples@;
        let len: usize = self.samples.len();
        if len <= self.ceiling {
            assert(discard_frames(all.len(), self.ceiling as nat, self.frame_len as nat)
                * self.frame_len == 0) by (nonlinear_arith)
                requires
                    discard_frames(all.len(), self.ceiling as nat, self.frame_len as nat) == 0,
            ;
            assert(all.skip(0) =~= all);
            return ;
        }
        let excess: usize = len - self.ceiling;
        let whole: usize = excess / self.frame_len;
        let units: usize = if excess % self.frame_len == 0 {
            whole
        } else {
            whole + 1
        };
        proof {
            let f = self.frame_len as int;
            lemma_fundamental_div_mod(excess as int, f);
            lemma_mod_bound(excess as int, f);
            assert(units * f >= excess && units * f < excess + f) by (nonlinear_arith)
                requires
                    f > 0,
                    excess == f * (excess as int / f) + excess as int % f,
                    0 <= excess as int % f < f,
                    units == if excess as int % f == 0 {
                        excess as int / f
                    } else {
                        excess as int / f + 1
                    },
            ;
        }
        let drop: usize = units * self.frame_len;
        self.drop_front(drop);
        self.discarded = self.discarded.saturating_add(units as u64);
    }

    /// Removes the oldest `count` samples in place.
    fn drop_front(&mut self, count: usize)
        requires
            count <= old(self).samples@.len(),
        ensures
            final(self).samples@ == old(self).samples@.skip(count as int),
            final(self).frame_len == old(self).frame_len,
            final(self).ceiling == old(self).ceiling,
            final(self).discarded == old(self).discarded,
    {
        let len: usize = self.samples.len();
        let keep: usize = len - count;
        if count > 0 {
            let mut i: usize = 0;
            while i < keep
                invariant
                    keep + count == len,
                    i <= keep,
                    self.samples@.len() == len,
                    old(self).samples@.len() == len,
                    self.frame_len == old(self).frame_len,
                    self.ceiling == old(self).ceiling,
                    self.discarded == old(self).discarded,
                    forall|k: int| 0 <= k < i ==> self.samples@[k] == old(self).samples@[k + count],
                    forall|k: int| i <= k < len ==> self.samples@[k] == old(self).samples@[k],
                decreases keep - i,
            {
                let sample: i16 = self.samples[i + count];
                self.samples[i] = sample;
                i += 1;
            }
        }
        self.samples.truncate(keep);
        assert(self.samples@ =~= old(self).samples@.skip(count as int));
    }

    /// Moves the oldest samples into the front of `out`, as many as `out`
    /// has room for or as are buffered, whichever is fewer, and returns their
    /// number. The length of `out` and its samples behind them stay as they
    /// are. Nothing is allocated.
    pub fn dequeue_into(&mut self, out: &mut Vec<i16>) -> (count: usize)
        requires
            old(self).wf(),
        ensures
            final(self).wf(),
            final(self).frame() == old(self).frame(),
            final(self).ceiling() == old(self).ceiling(),
            final(self).discarded() == old(self).discarded(),
            count == granted(old(self)@.len(), old(out)@.len()),
            final(out)@ == dequeue_step(old(self)@, old(out)@.len()).0 + old(out)@.skip(
                count as int,
            ),
            final(self)@ == dequeue_step(old(self)@, old(out)@.len()).1,
    {
        let available: usize = self.samples.len();
        let room: usize = out.len();
        let n: usize = if room <= available {
            room
        } else {
            available
        };
        let mut i: usize = 0;
        while i < n
            invariant
                n <= available,
                n <= room,
                i <= n,
                self.samples@ == old(self).samples@,
                self.samples@.len() == available,
                self.frame_len == old(self).frame_len,
                self.ceiling == old(self).ceiling,
                self.discarded == old(self).discarded,
                out@.len() == room,
                old(out)@.len() == room,
                forall|k: int| 0 <= k < i ==> out@[k] == old(self).samples@[k],
                forall|k: int| i <= k < room ==> out@[k] == old(out)@[k],
            decreases n - i,
        {
            let sample: i16 = self.samples[i];
            out[i] = sample;
            i += 1;
        }
        self.drop_front(n);
        assert(out@ =~= old(self)@.take(n as int) + old(out)@.skip(n as int));
        n
    }

    /// Removes and returns the oldest `requested` samples, or all of them
    /// when fewer are buffered. Never waits for more.
    pub fn dequeue(&mut self, requested: usize) -> (output: Vec<i16>)
        requires
            old(self).wf(),
        ensures
            final(self).wf(),
            final(self).frame() == old(self).frame(),
            final(self).ceiling() == old(self).ceiling(),
            final(self).discarded() == old(self).discarded(),
            output@ == dequeue_step(old(self)@, requested as nat).0,
            final(self)@ == dequeue_step(old(self)@, requested as nat).1,
            output@.len() == granted(old(self)@.len(), requested as nat),
            output@ + final(self)@ == old(self)@,
    {
        let available: usize = self.samples.len();
        let n: usize = if requested <= available {
            requested
        } else {
            available
        };
        let mut rest: Vec<i16> = self.samples.split_off(n);
        std::mem::swap(&mut self.samples, &mut rest);
        assert(rest@ =~= old(self)@.take(n as int));
        assert(self.samples@ =~= old(self)@.skip(n as int));
        assert(rest@ + self.samples@ =~= old(self)@);
        rest
    }
}

/// Whatever is requested and however often, the dequeued samples followed by
/// the samples still buffered are exactly the samples buffered at the start:
/// the output is a prefix of the buffer, in order, with nothing repeated.
pub proof fn dequeues_preserve_order(buffered: Seq<i16>, requests: Seq<nat>)
    ensures
        dequeue_all(buffered, requests).0 + dequeue_all(buffered, requests).1 == buffered,
        dequeue_all(buffered, requests).0 == buffered.take(
            dequeue_all(buffered, requests).0.len() as int,
        ),
    decreases requests.len(),
{
    let out = dequeue_all(buffered, requests);
    if requests.len() == 0 {
        assert(out.0 + out.1 =~= buffered);
    } else {
        let first = dequeue_step(buffered, requests[0]);
        dequeues_preserve_order(first.1, requests.drop_first());
        let rest = dequeue_all(first.1, requests.drop_first());
        assert(first.0 + first.1 =~= buffered);
        assert(out.0 + out.1 =~= first.0 + (rest.0 + rest.1));
    }
    assert(out.0 =~= buffered.take(out.0.len() as int));
}

/// Enqueues that stay within the ceiling keep every sample: the buffer then
/// holds what it held before followed by all enqueued frames in order.
pub proof fn enqueues_within_ceiling_keep_all(
    buffered: Seq<i16>,
    frames: Seq<Seq<i16>>,
    ceiling: nat,
    frame_len: nat,
)
    requires
        buffered.len() + frames.flatten().len() <= ceiling,
    ensures
        enqueue_all(buffered, frames, ceiling, frame_len) == buffered + frames.flatten(),
    decreases frames.len(),
{
    if frames.len() == 0 {
        assert(frames.flatten() =~= Seq::<i16>::empty());
        assert(buffered + frames.flatten() =~= buffered);
    } else {
        let tail = frames.drop_first();
        assert(frames.flatten() =~= frames[0] + tail.flatten());
        let all = buffered + frames[0];
        assert(all.skip(0) =~= all);
        assert(discard_frames(all.len(), ceiling, frame_len) * frame_len == 0) by (nonlinear_arith)
            requires
                discard_frames(all.len(), ceiling, frame_len) == 0,
        ;
        enqueues_within_ceiling_keep_all(all, tail, ceiling, frame_len);
        assert(all + tail.flatten() =~= buffered + frames.flatten());
    }
}

/// Enqueues followed by dequeues: as long as the enqueued frames fit under
/// the ceiling, the concatenation of everything dequeued is the prefix of the
/// concatenation of everything enqueued that has the length actually
/// returned.
pub proof fn dequeued_is_prefix_of_enqueued(
    frames: Seq<Seq<i16>>,
    requests: Seq<nat>,
    ceiling: nat,
    frame_len: nat,
)
    requires
        frames.flatten().len() <= ceiling,
    ensures
        ({
            let buffered = enqueue_all(Seq::empty(), frames, ceiling, frame_len);
            let output = dequeue_all(buffered, requests).0;
            output == frames.flatten().take(output.len() as int)
        }),
{
    enqueues_within_ceiling_keep_all(Seq::empty(), frames, ceiling, frame_len);
    assert(Seq::<i16>::empty() + frames.flatten() =~= frames.flatten());
    dequeues_preserve_order(frames.flatten(), requests);
}

/// Whether or not the ceiling is exceeded, what an enqueue leaves in the
/// buffer is a tail of what was buffered followed by the new frame, it
/// respects the ceiling, and what was cut from the head is a whole number of
/// frames.
pub proof fn enqueue_step_keeps_newest(
    buffered: Seq<i16>,
    frame: Seq<i16>,
    ceiling: nat,
    frame_len: nat,
)
    requires
        0 < frame_len <= ceiling,
    ensures
        ({
            let all = buffered + frame;
            let cut = discard_frames(all.len(), ceiling, frame_len) * frame_len;
            &&& cut <= all.len()
            &&& enqueue_step(buffered, frame, ceiling, frame_len) == all.skip(cut as int)
            &&& enqueue_step(buffered, frame, ceiling, frame_len).len() <= ceiling
            &&& all.len() > ceiling ==> enqueue_step(buffered, frame, ceiling, frame_len).len()
                > ceiling - frame_len
        }),
{
    let all = buffered + frame;
    let f = frame_len as int;
    let units = discard_frames(all.len(), ceiling, frame_len) as int;
    if all.len() <= ceiling {
        assert(units * f == 0) by (nonlinear_arith)
            requires
                units == 0,
        ;
    } else {
        let excess = all.len() - ceiling;
        lemma_fundamental_div_mod(excess, f);
        lemma_mod_bound(excess, f);
        assert(units * f >= excess && units * f < excess + f) by (nonlinear_arith)
            requires
                f > 0,
                excess == f * (excess / f) + excess % f,
                0 <= excess % f < f,
                units == if excess % f == 0 {
                    excess / f
                } else {
                    excess / f + 1
                },
        ;
    }
}

/// A whole frame enqueued into a buffer that has no room for it pushes out
/// exactly one frame's worth of the oldest samples.
pub proof fn overflow_trades_one_frame(
    buffered: Seq<i16>,
    frame: Seq<i16>,
    ceiling: nat,
    frame_len: nat,
)
    requires
        frame_len > 0,
        frame.len() == frame_len,
        buffered.len() <= ceiling < buffered.len() + frame_len,
    ensures
        discard_frames((buffered + frame).len(), ceiling, frame_len) == 1,
        enqueue_step(buffered, frame, ceiling, frame_len) == (buffered + frame).skip(
            frame_len as int,
        ),
{
    let f = frame_len as int;
    let excess = (buffered + frame).len() - ceiling;
    if excess == f {
        assert(excess / f == 1 && excess % f == 0) by (nonlinear_arith)
            requires
                excess == f,
                f > 0,
        ;
    } else {
        assert(excess / f == 0 && excess % f == excess) by (nonlinear_arith)
            requires
                0 < excess < f,
        ;
    }
    assert(1 * f == f) by (nonlinear_arith);
}

/// Whole frames enqueued into a buffer that holds whole frames: once the
/// capacity is exceeded, exactly the oldest excess frames are discarded and
/// counted, and the buffer holds the newest frames in their order.
pub proof fn overflow_keeps_newest_frames(
    buffered: Seq<i16>,
    frames: Seq<Seq<i16>>,
    held: nat,
    capacity: nat,
    frame_len: nat,
)
    requires
        frame_len > 0,
        capacity > 0,
        uniform(frames, frame_len),
        buffered.len() == held * frame_len,
        held <= capacity,
    ensures
        ({
            let over = excess_frames(held + frames.len(), capacity);
            let ceiling = capacity * frame_len;
            &&& over * frame_len <= (buffered + frames.flatten()).len()
            &&& enqueue_all(buffered, frames, ceiling, frame_len) == (buffered
                + frames.flatten()).skip((over * frame_len) as int)
            &&& discards_all(buffered, frames, ceiling, frame_len) == over
        }),
    decreases frames.len(),
{
    let f = frame_len as int;
    let ceiling = capacity * frame_len;
    let over = excess_frames(held + frames.len(), capacity);
    let whole = buffered + frames.flatten();
    if frames.len() == 0 {
        assert(frames.flatten() =~= Seq::<i16>::empty());
        assert(over * frame_len == 0) by (nonlinear_arith)
            requires
                over == 0,
        ;
        assert(whole.skip(0) =~= buffered);
    } else {
        let first = frames[0];
        let tail = frames.drop_first();
        let all = buffered + first;
        assert forall|i: int| 0 <= i < tail.len() implies (#[trigger] tail[i]).len()
            == frame_len by {
            assert(tail[i] == frames[i + 1]);
        }
        assert(frames.flatten() =~= first + tail.flatten());
        assert(first.len() == frame_len);
        assert((held + 1) * frame_len == held * frame_len + frame_len) by (nonlinear_arith);
        if held + 1 <= capacity {
            assert((held + 1) * frame_len <= capacity * frame_len) by (nonlinear_arith)
                requires
                    held + 1 <= capacity,
            ;
            assert(discard_frames(all.len(), ceiling, frame_len) * frame_len == 0)
                by (nonlinear_arith)
                requires
                    discard_frames(all.len(), ceiling, frame_len) == 0,
            ;
            assert(enqueue_step(buffered, first, ceiling, frame_len) =~= all);
            overflow_keeps_newest_frames(all, tail, held + 1, capacity, frame_len);
            assert(all + tail.flatten() =~= whole);
        } else {
            assert((capacity + 1) * frame_len == capacity * frame_len + frame_len)
                by (nonlinear_arith);
            overflow_trades_one_frame(buffered, first, ceiling, frame_len);
            let kept = all.skip(f);
            overflow_keeps_newest_frames(kept, tail, held, capacity, frame_len);
            let over_tail = excess_frames(held + tail.len(), capacity);
            assert(over == over_tail + 1);
            assert(over * frame_len == frame_len + over_tail * frame_len) by (nonlinear_arith)
                requires
                    over == over_tail + 1,
            ;
            assert(kept + tail.flatten() =~= whole.skip(f));
            assert(whole.skip(f).skip((over_tail * frame_len) as int) =~= whole.skip(
                (over * frame_len) as int,
            ));
        }
    }
}

} // verus!
