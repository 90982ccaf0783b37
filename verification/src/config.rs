//! Start-up checks of the device and codec configuration.

use vstd::prelude::*;
use crate::frame::SAMPLE_RATE;
use crate::util::layout_of;
use crate::util::Channels;
use crate::util::IntoChannels;

verus! {

/// Why a pipeline could not be configured. Fatal: the pipeline never starts.
#[derive(Clone, Copy, Debug, PartialEq, Eq, Structural)]
pub enum ConfigurationError {
    /// The device does not run at the fixed sample rate.
    SampleRate,
    /// The packet size limit is zero or larger than one uncompressed frame.
    PacketLimit,
}

/// Checks what a device reports against the fixed sample rate and gives the
/// layout its channel count stands for.
pub fn negotiate(sample_rate: u32, channel_count: u16) -> (layout: Result<
    Channels,
    ConfigurationError,
>)
    ensures
        sample_rate == SAMPLE_RATE ==> layout == Ok::<Channels, ConfigurationError>(
            layout_of(channel_count),
        ),
        sample_rate != SAMPLE_RATE ==> layout == Err::<Channels, ConfigurationError>(
            ConfigurationError::SampleRate,
        ),
{
    if sample_rate != SAMPLE_RATE {
        Err(ConfigurationError::SampleRate)
    } else {
        Ok(channel_count.into_channels())
    }
}

} // verus!
