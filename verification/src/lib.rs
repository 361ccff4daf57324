//! Colored-noise generation core: a recursive (IIR) digital filter over
//! fixed-point samples, fixed coefficient profiles (white/identity, brown,
//! pink), a stereo engine that clamps its outputs, and the per-buffer fill
//! routine driven by an audio callback.
//!
//! Amplitudes are fixed-point: an `i64` holds the real value times `SCALE`,
//! so full scale (1.0) is `SCALE` and the clamp range is `[-SCALE, SCALE]`.

pub mod arith;
pub mod filter;
pub mod profiles;
pub mod engine;
pub mod callback;
