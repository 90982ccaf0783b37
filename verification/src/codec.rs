//! Encode and decode stages: the checks on either side of a codec call.
//!
//! The codec itself keeps history between calls and is owned by the caller.
//! A stage decides what is handed to the codec, what is accepted from it, and
//! counts every unit that had to be dropped.

use vstd::prelude::*;
use crate::frame::frame_byte_len;
use crate::frame::frame_bytes;
use crate::frame::frame_len;
use crate::frame::frame_samples;
use crate::config::ConfigurationError;
use crate::counter::bumped;
use crate::util::Channels;

verus! {

/// Failure reported by the codec.
#[derive(Clone, Copy, Debug, PartialEq, Eq, Structural)]
pub enum CodecFault {
    /// An argument was invalid or out of range.
    BadArg,
    /// The output buffer was too small.
    BufferTooSmall,
    /// The codec detected an internal error.
    InternalError,
    /// The compressed data is corrupted.
    InvalidPacket,
    /// The request is not implemented.
    Unimplemented,
    /// The codec state is invalid.
    InvalidState,
    /// Memory allocation failed.
    AllocFail,
    /// Any other failure.
    Unknown,
}

/// Why a frame produced no packet. The frame is dropped and the pipeline
/// goes on with the next one.
#[derive(Clone, Copy, Debug, PartialEq, Eq, Structural)]
pub enum EncodeError {
    /// The frame does not hold exactly one frame's worth of samples.
    FrameSizeMismatch,
    /// The codec produced more bytes than a packet may hold.
    PacketTooLarge,
    /// The codec rejected the frame.
    Codec(CodecFault),
}

/// Why a packet produced no frame. The packet is dropped and the pipeline
/// goes on with the next one.
#[derive(Clone, Copy, Debug, PartialEq, Eq, Structural)]
pub enum DecodeError {
    /// A packet was present but held no bytes.
    EmptyPacket,
    /// The packet is longer than a packet may be.
    PacketTooLarge,
    /// The codec produced something other than exactly one frame.
    FrameSizeMismatch,
    /// The codec rejected the packet.
    Codec(CodecFault),
}

/// What the decoder is to be asked for.
#[derive(Clone, Copy, Debug, PartialEq, Eq, Structural)]
pub enum DecodeRequest {
    /// Decode the packet at hand.
    Packet,
    /// No packet arrived: synthesize a continuation frame.
    Conceal,
}

/// Whether `max_packet` is an acceptable packet size limit for `channels`.
pub open spec fn packet_limit_ok(channels: Channels, max_packet: nat) -> bool {
    0 < max_packet <= frame_bytes(channels)
}

/// What an encode stage returns for a codec outcome.
pub open spec fn encode_result(max_packet: nat, outcome: Result<Seq<u8>, CodecFault>) -> Result<
    Seq<u8>,
    EncodeError,
> {
    match outcome {
        Ok(bytes) => if bytes.len() <= max_packet {
            Ok(bytes)
        } else {
            Err(EncodeError::PacketTooLarge)
        },
        Err(fault) => Err(EncodeError::Codec(fault)),
    }
}

/// What a decode stage asks of the decoder for an arrival.
pub open spec fn decode_plan(max_packet: nat, packet: Option<Seq<u8>>) -> Result<
    DecodeRequest,
    DecodeError,
> {
    match packet {
        None => Ok(DecodeRequest::Conceal),
        Some(bytes) => if bytes.len() == 0 {
            Err(DecodeError::EmptyPacket)
        } else if bytes.len() > max_packet {
            Err(DecodeError::PacketTooLarge)
        } else {
            Ok(DecodeRequest::Packet)
        },
    }
}

/// What a decode stage returns for a codec outcome.
pub open spec fn decode_result(frame_len: nat, outcome: Result<Seq<i16>, CodecFault>) -> Result<
    Seq<i16>,
    DecodeError,
> {
    match outcome {
        Ok(samples) => if samples.len() == frame_len {
            Ok(samples)
        } else {
            Err(DecodeError::FrameSizeMismatch)
        },
        Err(fault) => Err(DecodeError::Codec(fault)),
    }
}

/// The bytes of an arrival, if a packet arrived.
pub open spec fn packet_bytes(packet: Option<&[u8]>) -> Option<Seq<u8>> {
    match packet {
        Some(bytes) => Some(bytes@),
        None => None,
    }
}

/// The byte view of an encode result.
pub open spec fn packet_view(result: Result<Vec<u8>, EncodeError>) -> Result<Seq<u8>, EncodeError> {
    match result {
        Ok(bytes) => Ok(bytes@),
        Err(e) => Err(e),
    }
}

/// The sample view of a decode result.
pub open spec fn frame_view(result: Result<Vec<i16>, DecodeError>) -> Result<
    Seq<i16>,
    DecodeError,
> {
    match result {
        Ok(samples) => Ok(samples@),
        Err(e) => Err(e),
    }
}

/// The byte view of a codec outcome on the encode side.
pub open spec fn encoded_view(outcome: Result<Vec<u8>, CodecFault>) -> Result<Seq<u8>, CodecFault> {
    match outcome {
        Ok(bytes) => Ok(bytes@),
        Err(fault) => Err(fault),
    }
}

/// The sample view of a codec outcome on the decode side.
pub open spec fn decoded_view(outcome: Result<Vec<i16>, CodecFault>) -> Result<
    Seq<i16>,
    CodecFault,
> {
    match outcome {
        Ok(samples) => Ok(samples@),
        Err(fault) => Err(fault),
    }
}

/// The checks around the encoder of one capture stream.
pub struct EncodeStage {
    channels: Channels,
    max_packet: usize,
    losses: u64,
}

impl EncodeStage {
    /// The channel layout of the frames.
    pub closed spec fn channels(&self) -> Channels {
        self.channels
    }

    /// The largest packet, in bytes.
    pub closed spec fn max_packet(&self) -> nat {
        self.max_packet as nat
    }

    /// The number of frames dropped so far.
    pub closed spec fn losses(&self) -> u64 {
        self.losses
    }

    /// A stage for frames of the given layout and packets of at most
    /// `max_packet` bytes. The limit must be positive and no larger than one
    /// uncompressed frame.
    pub fn new(channels: Channels, max_packet: usize) -> (stage: Result<
        EncodeStage,
        ConfigurationError,
    >)
        ensures
            packet_limit_ok(channels, max_packet as nat) <==> stage.is_ok(),
            stage.is_err() ==> stage == Err::<EncodeStage, ConfigurationError>(
                ConfigurationError::PacketLimit,
            ),
            stage.is_ok() ==> stage.unwrap().channels() == channels && stage.unwrap().max_packet()
                == max_packet && stage.unwrap().losses() == 0,
    {
        if max_packet == 0 || max_packet > frame_byte_len(channels) {
            Err(ConfigurationError::PacketLimit)
        } else {
            Ok(EncodeStage { channels, max_packet, losses: 0 })
        }
    }

    /// Largest packet, in bytes: the size of the output buffer to offer the
    /// encoder.
    pub fn packet_limit(&self) -> (n: usize)
        ensures
            n == self.max_packet(),
    {
        self.max_packet
    }

    /// Number of frames dropped so far.
    pub fn loss_count(&self) -> (n: u64)
        ensures
            n == self.losses(),
    {
        self.losses
    }

    /// Decides whether `frame` may be handed to the encoder: it must hold
    /// exactly one frame's worth of samples. A refused frame is counted as
    /// lost.
    pub fn check_frame(&mut self, frame: &[i16]) -> (verdict: Result<(), EncodeError>)
        ensures
            final(self).channels() == old(self).channels(),
            final(self).max_packet() == old(self).max_packet(),
            frame@.len() == frame_samples(old(self).channels()) <==> verdict.is_ok(),
            verdict.is_err() ==> verdict == Err::<(), EncodeError>(EncodeError::FrameSizeMismatch),
            final(self).losses() == if verdict.is_ok() {
                old(self).losses()
            } else {
                bumped(old(self).losses(), 1)
            },
    {
        if frame.len() == frame_len(self.channels) {
            Ok(())
        } else {
            self.losses = self.losses.saturating_add(1);
            Err(EncodeError::FrameSizeMismatch)
        }
    }

    /// Turns what the encoder returned for a checked frame into the
    /// stage's result: the packet if it respects the size limit, an error
    /// otherwise. Every error is counted as one lost frame.
    pub fn finish(&mut self, outcome: Result<Vec<u8>, CodecFault>) -> (result: Result<
        Vec<u8>,
        EncodeError,
    >)
        ensures
            final(self).channels() == old(self).channels(),
            final(self).max_packet() == old(self).max_packet(),
            packet_view(result) == encode_result(old(self).max_packet(), encoded_view(outcome)),
            result.is_ok() ==> result.unwrap()@.len() <= old(self).max_packet(),
            final(self).losses() == if result.is_ok() {
                old(self).losses()
            } else {
                bumped(old(self).losses(), 1)
            },
    {
        match outcome {
            Ok(bytes) => {
                if bytes.len() <= self.max_packet {
                    Ok(bytes)
                } else {
                    self.losses = self.losses.saturating_add(1);
                    Err(EncodeError::PacketTooLarge)
                }
            },
            Err(fault) => {
                self.losses = self.losses.saturating_add(1);
                Err(EncodeError::Codec(fault))
            },
        }
    }

    /// Encodes one frame. `codec` is the call into the encoder: it gets the
    /// frame and the size limit and returns the packet or the fault. A frame
    /// of the wrong length is refused before the encoder sees it; a packet
    /// over the limit or a fault is an error. Every error is counted as one
    /// lost frame.
    pub fn encode<F: FnOnce(&[i16], usize) -> Result<Vec<u8>, CodecFault>>(
        &mut self,
        frame: &[i16],
        codec: F,
    ) -> (result: Result<Vec<u8>, EncodeError>)
        requires
            frame@.len() == frame_samples(old(self).channels()) ==> call_requires(
                codec,
                (frame, old(self).max_packet() as usize),
            ),
        ensures
            final(self).channels() == old(self).channels(),
            final(self).max_packet() == old(self).max_packet(),
            frame@.len() != frame_samples(old(self).channels()) ==> result == Err::<
                Vec<u8>,
                EncodeError,
            >(EncodeError::FrameSizeMismatch),
            frame@.len() == frame_samples(old(self).channels()) ==> exists|
                outcome: Result<Vec<u8>, CodecFault>,
            |
                call_ensures(codec, (frame, old(self).max_packet() as usize), outcome)
                    && packet_view(result) == encode_result(
                    old(self).max_packet(),
                    encoded_view(outcome),
                ),
            result.is_ok() ==> result.unwrap()@.len() <= old(self).max_packet(),
            final(self).losses() == if result.is_ok() {
                old(self).losses()
            } else {
                bumped(old(self).losses(), 1)
            },
    {
        match self.check_frame(frame) {
            Err(e) => Err(e),
            Ok(()) => {
                let outcome = codec(frame, self.max_packet);
                self.finish(outcome)
            },
        }
    }
}

/// The checks around the decoder of one playback stream.
pub struct DecodeStage {
    channels: Channels,
    max_packet: usize,
    losses: u64,
    concealed: u64,
}

impl DecodeStage {
    /// The channel layout of the frames.
    pub closed spec fn channels(&self) -> Channels {
        self.channels
    }

    /// The largest packet, in bytes.
    pub closed spec fn max_packet(&self) -> nat {
        self.max_packet as nat
    }

    /// The number of packets dropped so far.
    pub closed spec fn losses(&self) -> u64 {
        self.losses
    }

    /// The number of missing packets for which concealment was requested so
    /// far.
    pub closed spec fn concealed(&self) -> u64 {
        self.concealed
    }

    /// A stage for frames of the given layout and packets of at most
    /// `max_packet` bytes. The limit must be positive and no larger than one
    /// uncompressed frame.
    pub fn new(channels: Channels, max_packet: usize) -> (stage: Result<
        DecodeStage,
        ConfigurationError,
    >)
        ensures
            packet_limit_ok(channels, max_packet as nat) <==> stage.is_ok(),
            stage.is_err() ==> stage == Err::<DecodeStage, ConfigurationError>(
                ConfigurationError::PacketLimit,
            ),
            stage.is_ok() ==> stage.unwrap().channels() == channels && stage.unwrap().max_packet()
                == max_packet && stage.unwrap().losses() == 0 && stage.unwrap().concealed() == 0,
    {
        if max_packet == 0 || max_packet > frame_byte_len(channels) {
            Err(ConfigurationError::PacketLimit)
        } else {
            Ok(DecodeStage { channels, max_packet, losses: 0, concealed: 0 })
        }
    }

    /// Number of samples of the output buffer to offer the decoder: exactly
    /// one frame.
    pub fn frame_len(&self) -> (n: usize)
        ensures
            n == frame_samples(self.channels()),
    {
        frame_len(self.channels)
    }

    /// Number of packets dropped so far.
    pub fn loss_count(&self) -> (n: u64)
        ensures
            n == self.losses(),
    {
        self.losses
    }

    /// Number of missing packets for which concealment was requested so far.
    pub fn concealed_count(&self) -> (n: u64)
        ensures
            n == self.concealed(),
    {
        self.concealed
    }

    /// Decides what to ask of the decoder for an arrival. A missing packet
    /// asks for concealment, explicitly. A present packet is decoded unless
    /// it is empty or longer than the limit; such a packet is refused and
    /// counted as lost.
    pub fn plan(&mut self, packet: Option<&[u8]>) -> (request: Result<DecodeRequest, DecodeError>)
        ensures
            final(self).channels() == old(self).channels(),
            final(self).max_packet() == old(self).max_packet(),
            request == decode_plan(old(self).max_packet(), packet_bytes(packet)),
            final(self).losses() == if request.is_err() {
                bumped(old(self).losses(), 1)
            } else {
                old(self).losses()
            },
            final(self).concealed() == if packet.is_none() {
                bumped(old(self).concealed(), 1)
            } else {
                old(self).concealed()
            },
    {
        match packet {
            None => {
                self.concealed = self.concealed.saturating_add(1);
                Ok(DecodeRequest::Conceal)
            },
            Some(bytes) => {
                if bytes.len() == 0 {
                    self.losses = self.losses.saturating_add(1);
                    Err(DecodeError::EmptyPacket)
                } else if bytes.len() > self.max_packet {
                    self.losses = self.losses.saturating_add(1);
                    Err(DecodeError::PacketTooLarge)
                } else {
                    Ok(DecodeRequest::Packet)
                }
            },
        }
    }

    /// Turns what the decoder returned into the stage's result: the samples
    /// if they are exactly one frame, an error otherwise. Every error is
    /// counted as one lost packet.
    pub fn finish(&mut self, outcome: Result<Vec<i16>, CodecFault>) -> (result: Result<
        Vec<i16>,
        DecodeError,
    >)
        ensures
            final(self).channels() == old(self).channels(),
            final(self).max_packet() == old(self).max_packet(),
            final(self).concealed() == old(self).concealed(),
            frame_view(result) == decode_result(
                frame_samples(old(self).channels()),
                decoded_view(outcome),
            ),
            result.is_ok() ==> result.unwrap()@.len() == frame_samples(old(self).channels()),
            final(self).losses() == if result.is_ok() {
                old(self).losses()
            } else {
                bumped(old(self).losses(), 1)
            },
    {
        match outcome {
            Ok(samples) => {
                if samples.len() == frame_len(self.channels) {
                    Ok(samples)
                } else {
                    self.losses = self.losses.saturating_add(1);
                    Err(DecodeError::FrameSizeMismatch)
                }
            },
            Err(fault) => {
                self.losses = self.losses.saturating_add(1);
                Err(DecodeError::Codec(fault))
            },
        }
    }

    /// Decodes one arrival. `codec` is the call into the decoder: it gets
    /// the packet, or nothing where concealment is wanted, and the frame
    /// length, and returns the samples or the fault. An empty or oversized
    /// packet is refused before the decoder sees it; anything but exactly
    /// one frame, or a fault, is an error. Every error is counted as one
    /// lost packet.
    pub fn decode<F: FnOnce(Option<&[u8]>, usize) -> Result<Vec<i16>, CodecFault>>(
        &mut self,
        packet: Option<&[u8]>,
        codec: F,
    ) -> (result: Result<Vec<i16>, DecodeError>)
        requires
            decode_plan(old(self).max_packet(), packet_bytes(packet)).is_ok() ==> call_requires(
                codec,
                (packet, frame_samples(old(self).channels()) as usize),
            ),
        ensures
            final(self).channels() == old(self).channels(),
            final(self).max_packet() == old(self).max_packet(),
            final(self).concealed() == if packet.is_none() {
                bumped(old(self).concealed(), 1)
            } else {
                old(self).concealed()
            },
            match decode_plan(old(self).max_packet(), packet_bytes(packet)) {
                Err(e) => result == Err::<Vec<i16>, DecodeError>(e),
                Ok(request) => exists|outcome: Result<Vec<i16>, CodecFault>|
                    call_ensures(
                        codec,
                        (packet, frame_samples(old(self).channels()) as usize),
                        outcome,
                    ) && frame_view(result) == decode_result(
                        frame_samples(old(self).channels()),
                        decoded_view(outcome),
                    ),
            },
            result.is_ok() ==> result.unwrap()@.len() == frame_samples(old(self).channels()),
            final(self).losses() == if result.is_ok() {
                old(self).losses()
            } else {
                bumped(old(self).losses(), 1)
            },
    {
        match self.plan(packet) {
            Err(e) => Err(e),
            Ok(_) => {
                let outcome = codec(packet, frame_len(self.channels));
                self.finish(outcome)
            },
        }
    }
}

} // verus!
