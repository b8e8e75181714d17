//! Verified bulk-buffer transform kernels.
//!
//! A family of operations over flat byte and integer buffers — in-place
//! inversion, byte-wise XOR, and bit population counts — built on a shared
//! engine that splits a buffer into a lane-aligned main region and a scalar
//! remainder.  The engine's safety contract (every index processed exactly
//! once, never an access past the logical length) is proved rather than
//! audited, and every kernel's result is pinned to a per-element
//! specification, so the split can never change what a kernel computes.

pub mod byte;
pub mod engine;
pub mod images;
pub mod lanes;
