//! A fixed-topology audio routing and mixing engine.
//!
//! Samples travel through the engine as the bit patterns of single-precision
//! amplitudes, held in `u32` values. The engine itself decides routing,
//! link filtering, channel-arity dispatch and per-sample branch selection;
//! the scalar amplitude arithmetic is supplied by the caller as a kernel
//! function, and every kernel invocation the engine makes is pinned by its
//! contracts.

pub mod bits;
pub mod channel;
pub mod laws;
pub mod mixer;
pub mod model;
