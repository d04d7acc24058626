//! Floating point: the operand vocabulary, FPCR and FPSR, and the backend
//! interface.
use vstd::prelude::*;

pub mod backend;
pub mod control;
pub mod engine;
pub mod operand;
pub mod softfloat;

verus! {
} // verus!
