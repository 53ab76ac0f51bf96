//! Streaming audio feature extraction: a circular sample buffer, log-spaced
//! spectral bucketing, a per-frame feature ring, and the block scheduling that
//! drives a spectral pipeline once enough samples have arrived.
//!
//! The numeric stages (windowed transform, IIR filtering, gain control) work on
//! floating-point data and live with the surrounding application; this crate
//! holds the index arithmetic and state machines they are built on, with the
//! contracts proved.

pub mod analyzer;
pub mod bucketer;
pub mod buffer;
pub mod errors;
pub mod features;
