//! Real-time audio pipeline core: sample-format conversion, frame
//! accumulation, codec stages, a bounded jitter buffer and a playback feeder.
//!
//! Every function here is driven synchronously by its caller and never blocks.

pub mod util;
pub mod counter;
pub mod frame;
pub mod config;
pub mod accumulator;
pub mod jitter;
pub mod playback;
pub mod lifecycle;
pub mod codec;
pub mod pipeline;
