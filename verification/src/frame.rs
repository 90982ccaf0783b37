//! Fixed protocol constants and the frame geometry derived from them.

use vstd::prelude::*;
use crate::util::Channels;

verus! {

/// Samples per second and channel.
pub const SAMPLE_RATE: u32 = 48_000;

/// Duration of one codec frame in milliseconds.
pub const FRAME_DURATION_MS: u32 = 20;

/// Bytes of one uncompressed sample.
pub const BYTES_PER_SAMPLE: usize = 2;

/// Interleaved samples in one frame of the given layout:
/// `sample_rate * channels * frame_duration_ms / 1000`.
pub open spec fn frame_samples(channels: Channels) -> nat {
    (SAMPLE_RATE * channels.count() * FRAME_DURATION_MS / 1000) as nat
}

/// Bytes of one uncompressed frame of the given layout.
pub open spec fn frame_bytes(channels: Channels) -> nat {
    frame_samples(channels) * BYTES_PER_SAMPLE as nat
}

/// Interleaved samples in one frame of the given layout.
pub fn frame_len(channels: Channels) -> (n: usize)
    ensures
        n == frame_samples(channels),
        channels == Channels::Mono ==> n == 960,
        channels == Channels::Stereo ==> n == 1920,
{
    let per_channel: usize = 960;
    match channels {
        Channels::Mono => per_channel,
        Channels::Stereo => per_channel * 2,
    }
}

/// Bytes of one uncompressed frame of the given layout.
pub fn frame_byte_len(channels: Channels) -> (n: usize)
    ensures
        n == frame_bytes(channels),
{
    frame_len(channels) * BYTES_PER_SAMPLE
}

} // verus!
