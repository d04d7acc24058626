//! CDT v1 trace emission.
//!
//! `format` and `sink` are always compiled: the machine loop's call sites and
//! the trap/exception vocabulary reference them either way, and
//! [`sink::NullSink`] keeps that one code path rather than a switch at every
//! call.
//!
//! One `REC_BLOCK` is emitted per instruction: per-instruction records put every
//! divergence at exactly one instruction at the cost of roughly 3x the stream.
use vstd::prelude::*;

pub mod format;
pub mod sink;
pub mod writer;
pub mod layout;

pub use format::{DisconType, EndReason, MarkerKind};
pub use sink::{deltas_between, DeltaBuffer, DeltaOut, ExceptionEvent, NullSink, RegDelta, TraceSink};

verus! {
} // verus!
