//! Per-group decoders reached from the top-level `op0` switch.
//!
//! One module per row of the ARM ARM's top-level encoding table. Every module
//! returns [`unallocated`](super::instruction::unallocated) for the encodings it
//! has not claimed. That is a working state rather than a hole — an unclaimed
//! encoding traps and is logged, and that log drives the lazy NEON
//! implementation.
//!
//! Each decoder's contract is the decoding table it implements, written as a
//! spec function over the bit fields of the word.
use vstd::prelude::*;

pub mod branch_system;
pub mod dp_immediate;
pub mod dp_register;
pub mod loads_stores;
pub mod simd_fp;

pub use branch_system::branches_exceptions_system;
pub use dp_immediate::data_processing_immediate;
pub use dp_register::data_processing_register;
pub use loads_stores::loads_and_stores;
pub use simd_fp::{data_processing_simd_fp, loads_and_stores_vec};

verus! {
} // verus!
