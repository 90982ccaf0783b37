//! Stateless sample-format and channel-layout conversions.

use vstd::prelude::*;

verus! {

/// Channel layout of an interleaved sample stream.
#[derive(Clone, Copy, Debug, PartialEq, Eq, Structural)]
pub enum Channels {
    /// One channel.
    Mono,
    /// Two channels, left then right.
    Stereo,
}

impl Channels {
    /// Number of interleaved samples per time step.
    pub open spec fn count(self) -> nat {
        match self {
            Channels::Mono => 1,
            Channels::Stereo => 2,
        }
    }
}

/// The layout a device channel count maps to: one channel is mono, anything
/// else is treated as stereo.
pub open spec fn layout_of(channel_count: u16) -> Channels {
    if channel_count == 1 {
        Channels::Mono
    } else {
        Channels::Stereo
    }
}

/// Conversion of a device channel count into a layout.
pub trait IntoChannels {
    /// The layout this value stands for.
    spec fn layout(&self) -> Channels;

    fn into_channels(&self) -> (c: Channels)
        ensures
            c == self.layout(),
    ;
}

impl IntoChannels for u16 {
    open spec fn layout(&self) -> Channels {
        layout_of(*self)
    }

    fn into_channels(&self) -> (c: Channels) {
        if *self == 1 {
            Channels::Mono
        } else {
            Channels::Stereo
        }
    }
}

/// Conversion of a layout into its channel count.
pub trait FromChannels {
    /// The channel count of this layout.
    spec fn channel_count(&self) -> nat;

    fn from_channels(&self) -> (n: usize)
        ensures
            n == self.channel_count(),
    ;
}

impl FromChannels for Channels {
    open spec fn channel_count(&self) -> nat {
        self.count()
    }

    fn from_channels(&self) -> (n: usize) {
        match self {
            Channels::Mono => 1,
            Channels::Stereo => 2,
        }
    }
}

/// Mono-to-stereo duplication: sample `i` of the input appears at positions
/// `2 * i` (left) and `2 * i + 1` (right) of the output.
pub open spec fn stereo_of<T>(mono: Seq<T>) -> Seq<T> {
    Seq::new(2 * mono.len(), |k: int| mono[k / 2])
}

/// Mean of a left and a right sample, rounded toward zero.
pub open spec fn average(left: i16, right: i16) -> int {
    let sum = left + right;
    if sum >= 0 {
        sum / 2
    } else {
        -((-sum) / 2)
    }
}

/// Stereo-to-mono averaging: output sample `i` is the mean of input samples
/// `2 * i` and `2 * i + 1`.
pub open spec fn mono_of(stereo: Seq<i16>) -> Seq<i16> {
    Seq::new(stereo.len() / 2, |i: int| average(stereo[2 * i], stereo[2 * i + 1]) as i16)
}

/// Why a sample block could not be converted.
#[derive(Clone, Copy, Debug, PartialEq, Eq, Structural)]
pub enum FormatError {
    /// A stereo block held an odd number of samples, so its last left sample
    /// has no right partner.
    OddLength,
}

/// Duplicates every mono sample into a left and a right sample.
pub fn convert_to_stereo<T: Copy>(pcm_data: &[T]) -> (result: Vec<T>)
    ensures
        result@ == stereo_of(pcm_data@),
        result@.len() == 2 * pcm_data@.len(),
        forall|i: int|
            0 <= i < pcm_data@.len() ==> result@[2 * i] == pcm_data@[i] && result@[2 * i + 1]
                == pcm_data@[i],
{
    let input_length: usize = pcm_data.len();
    let mut result: Vec<T> = Vec::new();
    let mut i: usize = 0;
    while i < input_length
        invariant
            input_length == pcm_data@.len(),
            i <= input_length,
            result@.len() == 2 * i,
            forall|k: int| 0 <= k < 2 * i ==> result@[k] == pcm_data@[k / 2],
        decreases input_length - i,
    {
        let sample: T = pcm_data[i];
        result.push(sample);
        result.push(sample);
        i += 1;
    }
    assert(result@ =~= stereo_of(pcm_data@));
    result
}

/// Averages each left/right pair of a stereo block into one mono sample.
/// A block of odd length is rejected as a whole.
pub fn convert_to_mono(data: &[i16]) -> (result: Result<Vec<i16>, FormatError>)
    ensures
        data@.len() % 2 == 1 <==> result == Err::<Vec<i16>, FormatError>(FormatError::OddLength),
        data@.len() % 2 == 0 <==> result.is_ok(),
        result.is_ok() ==> result.unwrap()@ == mono_of(data@),
{
    let n: usize = data.len();
    if n % 2 != 0 {
        return Err(FormatError::OddLength);
    }
    let half: usize = n / 2;
    let mut out: Vec<i16> = Vec::new();
    let mut i: usize = 0;
    while i < half
        invariant
            n == data@.len(),
            half == n / 2,
            n % 2 == 0,
            i <= half,
            out@.len() == i,
            forall|k: int| 0 <= k < i ==> out@[k] == average(data@[2 * k], data@[2 * k + 1]) as i16,
        decreases half - i,
    {
        let left: i32 = data[2 * i] as i32;
        let right: i32 = data[2 * i + 1] as i32;
        let sum: i32 = left + right;
        let mean: i32 = if sum >= 0 {
            sum / 2
        } else {
            -((-sum) / 2)
        };
        out.push(mean as i16);
        i += 1;
    }
    assert(out@ =~= mono_of(data@));
    Ok(out)
}

/// Duplicating a mono block to stereo and averaging it back to mono returns
/// the block unchanged, sample for sample.
pub proof fn stereo_then_mono_is_identity(mono: Seq<i16>)
    ensures
        stereo_of(mono).len() % 2 == 0,
        mono_of(stereo_of(mono)) == mono,
{
    let s = stereo_of(mono);
    assert forall|i: int| 0 <= i < mono.len() implies #[trigger] mono_of(s)[i] == mono[i] by {
        assert(s[2 * i] == mono[i]);
        assert(s[2 * i + 1] == mono[i]);
    }
    assert(mono_of(s) =~= mono);
}

} // verus!
