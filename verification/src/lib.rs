//! Decision logic of a helper that combines several PulseAudio/PipeWire
//! outputs into one combined sink by driving `pactl`.

pub mod text;
pub mod pactl;
pub mod sink;
pub mod error;
pub mod decode;
pub mod flow;
pub mod cli;
pub mod panel;
