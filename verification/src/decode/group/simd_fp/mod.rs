//! Scalar floating-point and advanced SIMD.
//!
//! Two entry points, because the architecture puts these encodings in two
//! different top-level groups: [`data_processing_simd_fp`] answers for
//! `op0 = x111`, and [`loads_and_stores_vec`] for the `V = 1` half of the
//! loads-and-stores group.
//!
//! Coverage is partial: an encoding not decoded here returns `unallocated`
//! and faults, and the trap log records it, rather than decoding to something
//! approximate.
use vstd::prelude::*;

pub mod loads_stores;
pub mod neon;
pub mod scalar;

pub use loads_stores::{loads_and_stores_vec, spec_loads_and_stores_vec};
use crate::decode::field::{bits, field};
use crate::decode::instruction::{unallocated, Instruction};

verus! {

/// `op0 = x111`: bit 28 set is scalar FP; advanced SIMD is unallocated here.
pub open spec fn spec_data_processing_simd_fp(encoding: u32) -> Instruction {
    if field(encoding, 28, 28) == 1 {
        scalar::spec_data_processing(encoding)
    } else {
        unallocated(encoding)
    }
}

/// `op0 = x111` — data processing, scalar FP and advanced SIMD.
pub fn data_processing_simd_fp(encoding: u32) -> (r: Instruction)
    ensures
        r.operands_valid(),
        r == spec_data_processing_simd_fp(encoding),
{
    // Bit 28 set is the scalar FP group; clear is advanced SIMD, which this
    // entry point answers as unallocated.
    if bits(encoding, 28, 28) == 1 {
        return scalar::data_processing(encoding);
    }
    unallocated(encoding)
}

} // verus!
