//! A64 instruction decoding.
//!
//! [`decode`] is total: every 32-bit word maps to an [`Instruction`], and an
//! encoding no group claims becomes [`Op::Unallocated`] rather than a panic or
//! an error. Unimplemented NEON encodings reach the interpreter as that trap,
//! and any word at all may be fetched, so totality is a requirement rather
//! than a nicety.
use vstd::prelude::*;

pub mod address;
pub mod field;
pub mod group;
pub mod instruction;
pub mod laws;
pub mod op;
pub mod operand;

pub use instruction::{unallocated, Form, Instruction};
pub use op::Op;

use field::{bits, field};
use group::dp_immediate::spec_data_processing_immediate;
use group::branch_system::spec_branches_exceptions_system;
use group::loads_stores::spec_loads_and_stores;
use group::dp_register::spec_data_processing_register;
use group::simd_fp::spec_data_processing_simd_fp;

verus! {

/// Bytes occupied by one A64 instruction. Fixed by the architecture.
pub const INSN_BYTES: u64 = 4;

/// The top-level encoding group an instruction word belongs to.
///
/// Selected by `op0` — bits 28..25 of the encoding — exactly as the ARM ARM's
/// "A64 instruction set encoding" table does.
#[derive(Debug, Clone, Copy, PartialEq, Eq, PartialOrd, Ord, Hash, Structural)]
pub enum EncodingGroup {
    /// `op0 = 0000`: reserved, including the `UDF` permanently-undefined space.
    Reserved,
    /// `op0 = 0010`: SVE. Not advertised by this machine, so always
    /// unallocated.
    Sve,
    /// `op0 = 100x`: data processing — immediate.
    DataProcessingImmediate,
    /// `op0 = 101x`: branches, exception generation and system instructions.
    BranchesExceptionsSystem,
    /// `op0 = x1x0`: loads and stores.
    LoadsAndStores,
    /// `op0 = x101`: data processing — register.
    DataProcessingRegister,
    /// `op0 = x111`: data processing — scalar FP and advanced SIMD.
    DataProcessingSimdFp,
    /// `op0 = 0001` or `0011`: no encoding is allocated here.
    Unallocated,
}

/// The group the ARM ARM's top-level table assigns to a 4-bit `op0`.
pub open spec fn group_of_op0(op0: u32) -> EncodingGroup {
    if op0 == 0 {
        EncodingGroup::Reserved
    } else if op0 == 1 || op0 == 3 {
        EncodingGroup::Unallocated
    } else if op0 == 2 {
        EncodingGroup::Sve
    } else if op0 == 8 || op0 == 9 {
        EncodingGroup::DataProcessingImmediate
    } else if op0 == 10 || op0 == 11 {
        EncodingGroup::BranchesExceptionsSystem
    } else if op0 % 2 == 0 {
        EncodingGroup::LoadsAndStores
    } else if op0 % 4 == 1 {
        EncodingGroup::DataProcessingRegister
    } else {
        EncodingGroup::DataProcessingSimdFp
    }
}

impl EncodingGroup {
    /// Classifies an instruction word by its `op0` field, bits 28..25.
    #[verifier::allow_in_spec]
    pub fn of(encoding: u32) -> (r: EncodingGroup)
        returns
            group_of_op0(field(encoding, 28, 25)),
    {
        proof { vstd::arithmetic::power2::lemma2_to64(); }
        let op0 = bits(encoding, 28, 25);
        if op0 == 0b0000 {
            EncodingGroup::Reserved
        } else if op0 == 0b0001 || op0 == 0b0011 {
            EncodingGroup::Unallocated
        } else if op0 == 0b0010 {
            EncodingGroup::Sve
        } else if op0 == 0b1000 || op0 == 0b1001 {
            EncodingGroup::DataProcessingImmediate
        } else if op0 == 0b1010 || op0 == 0b1011 {
            EncodingGroup::BranchesExceptionsSystem
        } else if op0 % 2 == 0 {
            // x1x0, once the two 10x0 rows above have been claimed.
            EncodingGroup::LoadsAndStores
        } else if op0 % 4 == 1 {
            EncodingGroup::DataProcessingRegister
        } else {
            EncodingGroup::DataProcessingSimdFp
        }
    }
}

/// What [`decode`] produces: the group's own decoding table, and unallocated
/// for SVE, reserved and unallocated space.
pub closed spec fn spec_decode(encoding: u32) -> Instruction {
    match EncodingGroup::of(encoding) {
        EncodingGroup::DataProcessingImmediate => spec_data_processing_immediate(encoding),
        EncodingGroup::BranchesExceptionsSystem => spec_branches_exceptions_system(encoding),
        EncodingGroup::LoadsAndStores => spec_loads_and_stores(encoding),
        EncodingGroup::DataProcessingRegister => spec_data_processing_register(encoding),
        EncodingGroup::DataProcessingSimdFp => spec_data_processing_simd_fp(encoding),
        _ => unallocated(encoding),
    }
}

/// What [`decode`] produces is the decoding table of the word's group.
pub proof fn lemma_decode_is_by_group(encoding: u32)
    ensures
        spec_decode(encoding) == match EncodingGroup::of(encoding) {
            EncodingGroup::DataProcessingImmediate => spec_data_processing_immediate(encoding),
            EncodingGroup::BranchesExceptionsSystem => spec_branches_exceptions_system(encoding),
            EncodingGroup::LoadsAndStores => spec_loads_and_stores(encoding),
            EncodingGroup::DataProcessingRegister => spec_data_processing_register(encoding),
            EncodingGroup::DataProcessingSimdFp => spec_data_processing_simd_fp(encoding),
            _ => unallocated(encoding),
        },
{
}

/// Decodes one A64 instruction word.
///
/// Total by construction: an unclaimed encoding yields [`Op::Unallocated`],
/// which the interpreter turns into an undefined-instruction trap at the right
/// PC.
pub fn decode(encoding: u32) -> (r: Instruction)
    ensures
        r.operands_valid(),
        r == spec_decode(encoding),
{
    match EncodingGroup::of(encoding) {
        EncodingGroup::DataProcessingImmediate => group::data_processing_immediate(encoding),
        EncodingGroup::BranchesExceptionsSystem => group::branches_exceptions_system(encoding),
        EncodingGroup::LoadsAndStores => group::loads_and_stores(encoding),
        EncodingGroup::DataProcessingRegister => group::data_processing_register(encoding),
        EncodingGroup::DataProcessingSimdFp => group::data_processing_simd_fp(encoding),
        // SVE is not advertised and the reserved and unallocated spaces have
        // no encodings, so all three fault identically.
        _ => unallocated(encoding),
    }
}

/// The group of a word depends on its `op0` field alone: bits outside 28..25
/// never change it.
pub proof fn lemma_group_depends_only_on_op0(a: u32, b: u32)
    requires
        field(a, 28, 25) == field(b, 28, 25),
    ensures
        EncodingGroup::of(a) == EncodingGroup::of(b),
{
}

/// SVE, the reserved space and the unallocated `op0` rows all decode as
/// unallocated, whatever their other bits.
pub proof fn lemma_unadvertised_groups_are_unallocated(encoding: u32)
    requires
        field(encoding, 28, 25) < 4,
    ensures
        spec_decode(encoding).op is Unallocated,
        spec_decode(encoding).form is NoOperands,
{
}

/// Decoding goes by group: a word decodes as its group's own table says,
/// and as unallocated in SVE, reserved and unallocated space.
pub proof fn lemma_decode_by_group(encoding: u32)
    ensures
        spec_decode(encoding) == match EncodingGroup::of(encoding) {
            EncodingGroup::DataProcessingImmediate => spec_data_processing_immediate(encoding),
            EncodingGroup::BranchesExceptionsSystem => spec_branches_exceptions_system(encoding),
            EncodingGroup::LoadsAndStores => spec_loads_and_stores(encoding),
            EncodingGroup::DataProcessingRegister => spec_data_processing_register(encoding),
            EncodingGroup::DataProcessingSimdFp => spec_data_processing_simd_fp(encoding),
            _ => unallocated(encoding),
        },
{
}

/// Decoding is total and keeps the word: every decoded instruction records
/// the exact encoding it came from.
pub proof fn lemma_decode_keeps_encoding(encoding: u32)
    ensures
        spec_decode(encoding).encoding == encoding,
{
}

/// The all-zero word, `UDF #0`, decodes as unallocated.
pub proof fn lemma_zero_word_is_unallocated()
    ensures
        spec_decode(0) == unallocated(0),
{
    assert(field(0, 28, 25) == 0) by {
        vstd::arithmetic::power2::lemma2_to64();
    }
    lemma_unadvertised_groups_are_unallocated(0);
    assert(EncodingGroup::of(0) == EncodingGroup::Reserved);
}

} // verus!
