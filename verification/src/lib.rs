//! Sample-by-sample delay and reverb units: ring buffers, delay lines,
//! feedback delay networks, a one-pole lowpass and the effect graph built
//! from them, generic over the sample type.

pub mod buffer;
pub mod delay;
pub mod echoes;
pub mod feedback;
pub mod fixed;
pub mod granularverb;
pub mod lowpass;
pub mod reverb;
pub mod sample;
pub mod stability;

pub use crate::buffer::Buffer;
pub use crate::delay::{Delay, RoundingErrorDelay};
pub use crate::fixed::Fixed;
pub use crate::feedback::{DelayWithFeedback, RoundingErrorDelayWithFeedback};
pub use crate::granularverb::Granularverb;
pub use crate::lowpass::Lowpass;
pub use crate::reverb::{
    classify, Channel, DelayMode, Reverb, ReverbModel, ReverbModelProcess, Smoothed,
};
pub use crate::sample::Sample;
