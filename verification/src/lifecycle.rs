//! Lifecycle of one pipeline direction.

use vstd::prelude::*;

verus! {

/// Where a pipeline direction stands between start and release.
#[derive(Clone, Copy, Debug, PartialEq, Eq, Structural)]
pub enum StreamState {
    /// No device stream is open.
    Idle,
    /// Callbacks are active and buffers are flowing.
    Streaming,
    /// Stop was requested: capture has ended, playback goes on until the
    /// jitter buffer is empty or a timeout elapses.
    Draining,
    /// Terminal: everything owned has been released.
    Stopped,
}

/// What the surrounding lifecycle layer reports to the pipeline.
#[derive(Clone, Copy, Debug, PartialEq, Eq, Structural)]
pub enum StreamEvent {
    /// The streams were opened.
    Start,
    /// Stop was requested.
    Stop,
    /// The jitter buffer ran empty.
    BufferEmpty,
    /// The drain timeout elapsed.
    Timeout,
}

impl StreamState {
    /// Position of the state on the way from `Idle` to `Stopped`.
    pub open spec fn rank(self) -> nat {
        match self {
            StreamState::Idle => 0,
            StreamState::Streaming => 1,
            StreamState::Draining => 2,
            StreamState::Stopped => 3,
        }
    }

    /// The transition function. `Start` leads from `Idle` to `Streaming`,
    /// `Stop` from `Streaming` to `Draining`, `BufferEmpty` and `Timeout`
    /// from `Draining` to `Stopped`. Every other event leaves the state as it
    /// is.
    pub open spec fn next(self, event: StreamEvent) -> StreamState {
        match (self, event) {
            (StreamState::Idle, StreamEvent::Start) => StreamState::Streaming,
            (StreamState::Streaming, StreamEvent::Stop) => StreamState::Draining,
            (StreamState::Draining, StreamEvent::BufferEmpty) => StreamState::Stopped,
            (StreamState::Draining, StreamEvent::Timeout) => StreamState::Stopped,
            _ => self,
        }
    }

    /// Whether the capture callback does any work in this state.
    pub open spec fn captures(self) -> bool {
        self == StreamState::Streaming
    }

    /// Whether the playback callback does any work in this state.
    pub open spec fn plays(self) -> bool {
        self == StreamState::Streaming || self == StreamState::Draining
    }

    /// The state after `event`.
    pub fn step(self, event: StreamEvent) -> (state: StreamState)
        ensures
            state == self.next(event),
    {
        match self {
            StreamState::Idle => match event {
                StreamEvent::Start => StreamState::Streaming,
                _ => self,
            },
            StreamState::Streaming => match event {
                StreamEvent::Stop => StreamState::Draining,
                _ => self,
            },
            StreamState::Draining => match event {
                StreamEvent::BufferEmpty => StreamState::Stopped,
                StreamEvent::Timeout => StreamState::Stopped,
                _ => self,
            },
            StreamState::Stopped => self,
        }
    }

    /// Whether the capture callback should do any work; otherwise it returns
    /// at once.
    pub fn capture_active(self) -> (active: bool)
        ensures
            active == self.captures(),
    {
        match self {
            StreamState::Streaming => true,
            _ => false,
        }
    }

    /// Whether the playback callback should do any work; otherwise it returns
    /// at once.
    pub fn playback_active(self) -> (active: bool)
        ensures
            active == self.plays(),
    {
        match self {
            StreamState::Streaming => true,
            StreamState::Draining => true,
            _ => false,
        }
    }
}

/// Requesting stop a second time changes nothing.
pub proof fn stop_is_idempotent(state: StreamState)
    ensures
        state.next(StreamEvent::Stop).next(StreamEvent::Stop) == state.next(StreamEvent::Stop),
{
}

/// No event moves a pipeline backwards, and each moves it at most one state
/// ahead.
pub proof fn transitions_only_advance(state: StreamState, event: StreamEvent)
    ensures
        state.rank() <= state.next(event).rank() <= state.rank() + 1,
{
}

/// `Stopped` is terminal.
pub proof fn stopped_is_terminal(event: StreamEvent)
    ensures
        StreamState::Stopped.next(event) == StreamState::Stopped,
{
}

} // verus!
