//! The callback steps of the pipeline: what the capture callback, the
//! receive path and the playback callback do with the state they own.
//!
//! A step never blocks and never fails to return. In a state in which its
//! direction is not active it leaves every buffer and counter untouched.

use vstd::prelude::*;
use crate::accumulator::feed_step;
use crate::accumulator::frame_at;
use crate::accumulator::joined;
use crate::accumulator::FrameAccumulator;
use crate::codec::decode_result;
use crate::codec::decoded_view;
use crate::codec::CodecFault;
use crate::codec::DecodeError;
use crate::codec::DecodeStage;
use crate::counter::bumped;
use crate::frame::frame_samples;
use crate::jitter::dequeue_step;
use crate::jitter::discard_frames;
use crate::jitter::enqueue_step;
use crate::jitter::JitterBuffer;
use crate::lifecycle::StreamEvent;
use crate::lifecycle::StreamState;
use crate::playback::padded;
use crate::playback::PlaybackFeeder;
use crate::util::convert_to_stereo;
use crate::util::stereo_of;
use crate::util::Channels;

verus! {

/// The stereo samples a capture chunk of the given layout stands for: a mono
/// chunk is duplicated to both channels, a stereo chunk is taken as it is.
pub open spec fn captured(layout: Channels, input: Seq<i16>) -> Seq<i16> {
    match layout {
        Channels::Mono => stereo_of(input),
        Channels::Stereo => input,
    }
}

/// `len` samples of silence.
pub open spec fn silence(len: nat) -> Seq<i16> {
    Seq::new(len, |i: int| 0i16)
}

/// The state after a playback callback that left `remaining` samples in the
/// jitter buffer: a draining pipeline stops once the buffer is empty.
pub open spec fn after_playback(state: StreamState, remaining: nat) -> StreamState {
    if state == StreamState::Draining && remaining == 0 {
        state.next(StreamEvent::BufferEmpty)
    } else {
        state
    }
}

/// The capture callback. While the pipeline captures, the chunk is brought
/// to stereo, appended to the accumulator, and every whole frame is handed
/// out, oldest first. Otherwise nothing is handed out and the accumulator is
/// left as it is.
pub fn capture_step(
    state: StreamState,
    layout: Channels,
    input: &[i16],
    accumulator: &mut FrameAccumulator,
) -> (frames: Vec<Vec<i16>>)
    requires
        old(accumulator).wf(),
    ensures
        final(accumulator).wf(),
        final(accumulator).frame() == old(accumulator).frame(),
        !state.captures() ==> frames@.len() == 0 && final(accumulator)@ == old(accumulator)@,
        state.captures() ==> {
            let all = old(accumulator)@ + captured(layout, input@);
            &&& frames@.len() == all.len() / old(accumulator).frame()
            &&& forall|j: int|
                0 <= j < frames@.len() ==> (#[trigger] frames@[j])@ == frame_at(
                    all,
                    old(accumulator).frame(),
                    j,
                )
            &&& joined(frames@) == feed_step(
                old(accumulator)@,
                captured(layout, input@),
                old(accumulator).frame(),
            ).0
            &&& final(accumulator)@ == feed_step(
                old(accumulator)@,
                captured(layout, input@),
                old(accumulator).frame(),
            ).1
        },
{
    if !state.capture_active() {
        return Vec::new();
    }
    match layout {
        Channels::Mono => {
            let stereo: Vec<i16> = convert_to_stereo(input);
            accumulator.feed(stereo.as_slice())
        },
        Channels::Stereo => accumulator.feed(input),
    }
}

/// The receive path behind the decoder. A decoder outcome that is exactly
/// one frame goes to the tail of the jitter buffer; anything else is dropped,
/// counted as a loss, and leaves the buffer as it is.
pub fn receive_step(
    stage: &mut DecodeStage,
    buffer: &mut JitterBuffer,
    outcome: Result<Vec<i16>, CodecFault>,
) -> (result: Result<(), DecodeError>)
    requires
        old(buffer).wf(),
    ensures
        final(buffer).wf(),
        final(buffer).frame() == old(buffer).frame(),
        final(buffer).ceiling() == old(buffer).ceiling(),
        final(stage).channels() == old(stage).channels(),
        final(stage).max_packet() == old(stage).max_packet(),
        final(stage).concealed() == old(stage).concealed(),
        match decode_result(frame_samples(old(stage).channels()), decoded_view(outcome)) {
            Ok(frame) => {
                &&& result == Ok::<(), DecodeError>(())
                &&& final(stage).losses() == old(stage).losses()
                &&& final(buffer)@ == enqueue_step(
                    old(buffer)@,
                    frame,
                    old(buffer).ceiling(),
                    old(buffer).frame(),
                )
                &&& final(buffer).discarded() == bumped(
                    old(buffer).discarded(),
                    discard_frames(
                        (old(buffer)@ + frame).len(),
                        old(buffer).ceiling(),
                        old(buffer).frame(),
                    ),
                )
            },
            Err(e) => {
                &&& result == Err::<(), DecodeError>(e)
                &&& final(stage).losses() == bumped(old(stage).losses(), 1)
                &&& final(buffer)@ == old(buffer)@
                &&& final(buffer).discarded() == old(buffer).discarded()
            },
        },
{
    match stage.finish(outcome) {
        Ok(frame) => {
            buffer.enqueue(frame.as_slice());
            Ok(())
        },
        Err(e) => Err(e),
    }
}

/// The playback callback. `out` has the length the device asked for and is
/// overwritten in place. While the pipeline plays, the request is served from
/// the jitter buffer and padded with silence, and a draining pipeline whose
/// buffer is now empty stops. Otherwise `out` becomes silence and nothing
/// else changes. The result is the next state.
pub fn playback_step(
    state: StreamState,
    buffer: &mut JitterBuffer,
    feeder: &mut PlaybackFeeder,
    out: &mut Vec<i16>,
) -> (next: StreamState)
    requires
        old(buffer).wf(),
    ensures
        final(buffer).wf(),
        final(buffer).frame() == old(buffer).frame(),
        final(buffer).ceiling() == old(buffer).ceiling(),
        final(buffer).discarded() == old(buffer).discarded(),
        final(out)@.len() == old(out)@.len(),
        !state.plays() ==> {
            &&& final(out)@ == silence(old(out)@.len())
            &&& next == state
            &&& final(buffer)@ == old(buffer)@
            &&& final(feeder).underflows() == old(feeder).underflows()
        },
        state.plays() ==> {
            &&& final(out)@ == padded(old(buffer)@, old(out)@.len())
            &&& final(buffer)@ == dequeue_step(old(buffer)@, old(out)@.len()).1
            &&& next == after_playback(state, final(buffer)@.len())
            &&& final(feeder).underflows() == if old(buffer)@.len() < old(out)@.len() {
                bumped(old(feeder).underflows(), 1)
            } else {
                old(feeder).underflows()
            }
        },
{
    if !state.playback_active() {
        let requested: usize = out.len();
        let mut i: usize = 0;
        while i < requested
            invariant
                i <= requested,
                out@.len() == requested,
                forall|k: int| 0 <= k < i ==> out@[k] == 0i16,
            decreases requested - i,
        {
            out[i] = 0;
            i += 1;
        }
        assert(out@ =~= silence(requested as nat));
        return state;
    }
    feeder.fill(buffer, out);
    match state {
        StreamState::Draining => {
            if buffer.len() == 0 {
                state.step(StreamEvent::BufferEmpty)
            } else {
                state
            }
        },
        _ => state,
    }
}

} // verus!
