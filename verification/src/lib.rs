//! A polyphonic sample-playback synthesizer core.
//!
//! A timestamped stream of note on/off events drives two sample-playback
//! voices inside a fixed-size audio block. The atomizer turns the sparse
//! event list into a dense per-frame stream, the reader classifies raw
//! messages into note updates, each voice tracks the playback state of one
//! note per playable semitone, and the pipeline mixes the two voices under
//! a continuous mix control.
//!
//! All amplitude arithmetic is exact fixed-point: sample amplitudes are
//! `i16`, gains are hundredths of full scale, and the attenuation and
//! output-scale constants are integer numerators over powers of ten, so
//! every frame value is an exact integer that the contracts pin down.

pub mod atomizer;
pub mod note;
pub mod pipeline;
pub mod reader;
pub mod voice;
