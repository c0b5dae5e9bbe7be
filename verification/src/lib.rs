//! Verified core of a streaming radio player's audio path.
//!
//! The crate owns the logic that can be checked: the preset algebra and its
//! wire encoding, the effect-chain configuration rules and a fixed-point
//! rendition of the per-sample effect pipeline, the streaming worker's
//! decision machine (decoder-error taxonomy, cancellation, backpressure),
//! and the tray-icon rasterizer. Network transport, the audio device, and
//! the floating-point trigonometry that seeds filter coefficients live in
//! the surrounding application, which feeds this crate plain values.

pub mod biquad;
pub mod fixed;
pub mod fx;
pub mod meta;
pub mod preset;
pub mod tray_icon;
pub mod warble;
pub mod worker;
