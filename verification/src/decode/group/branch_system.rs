//! Branches, exception generation and system instructions.
use vstd::prelude::*;
use crate::decode::field::{bits, field, register_field, sign_extend, sign_extended};
use crate::decode::instruction::{unallocated, Form, Instruction};
use crate::decode::op::Op;
use crate::reg::Gpr;

verus! {

/// The decoding table of `op0 = 101x`: `B`/`BL` with a 26-bit word offset,
/// `RET Xn`, and `NOP`; everything else is unallocated.
pub open spec fn spec_branches_exceptions_system(encoding: u32) -> Instruction {
    if field(encoding, 30, 26) == 5 {
        let op = if field(encoding, 31, 31) == 1 { Op::Bl } else { Op::B };
        let offset = (sign_extended(field(encoding, 25, 0), 26) * 4) as i64;
        Instruction::new(encoding, op, Form::Branch { offset })
    } else if encoding & 0xffff_fc1f == 0xd65f_0000 {
        let rn = Gpr::from_index_zr(field(encoding, 9, 5) as u8);
        Instruction::new(encoding, Op::Ret, Form::BranchIndirect { rn })
    } else if encoding == 0xd503_201f {
        Instruction::new(encoding, Op::Nop, Form::NoOperands)
    } else {
        unallocated(encoding)
    }
}

/// `op0 = 101x` — branches, exception generation and system instructions.
///
/// Unconditional immediate branches, `RET` and `NOP` are decoded; conditional
/// branches, compare-and-branch, the exception-generation group, barriers and
/// `MSR`/`MRS` remain unallocated.
pub fn branches_exceptions_system(encoding: u32) -> (r: Instruction)
    ensures
        r.operands_valid(),
        r == spec_branches_exceptions_system(encoding),
{
    // Unconditional branch (immediate): 00101 in bits 30..26.
    if bits(encoding, 30, 26) == 0b00101 {
        let op = if bits(encoding, 31, 31) == 1 { Op::Bl } else { Op::B };
        let words = sign_extend(bits(encoding, 25, 0), 26);
        proof { vstd::arithmetic::power2::lemma2_to64(); }
        let offset = words * 4;
        return Instruction::new(encoding, op, Form::Branch { offset });
    }

    // RET: 1101011 0 0 10 11111 000000 Rn 00000.
    if encoding & 0xffff_fc1f == 0xd65f_0000 {
        let rn = Gpr::from_index_zr(register_field(encoding, 5));
        return Instruction::new(encoding, Op::Ret, Form::BranchIndirect { rn });
    }

    // NOP: the hint space, encoded as a system instruction with CRm:op2 = 0.
    if encoding == 0xd503_201f {
        return Instruction::new(encoding, Op::Nop, Form::NoOperands);
    }

    unallocated(encoding)
}

} // verus!
