//! Data processing (immediate).
use vstd::prelude::*;
use crate::decode::field::{bits, field, register_field, lemma_register_field_bound};
use crate::decode::instruction::{unallocated, Form, Instruction};
use crate::decode::op::Op;
use crate::decode::operand::RegWidth;
use crate::reg::Gpr;

verus! {

/// The decoding table of `op0 = 100x`: add/sub (immediate), with the 12-bit
/// immediate shifted left by 12 when `sh` (bit 22) is set, and slot 31 of `Rd`
/// naming `SP` unless the `S` bit (29) asks for flags. Every other row is
/// unallocated.
pub open spec fn spec_data_processing_immediate(encoding: u32) -> Instruction {
    if field(encoding, 25, 23) != 2 {
        unallocated(encoding)
    } else {
        let imm12 = field(encoding, 21, 10) as u64;
        let imm = if field(encoding, 22, 22) == 0 { imm12 } else { imm12 << 12u64 };
        let sets_flags = field(encoding, 29, 29) == 1;
        let rd_slot = field(encoding, 4, 0) as u8;
        let rd = if sets_flags { Gpr::from_index_zr(rd_slot) } else { Gpr::from_index_sp(rd_slot) };
        let form = Form::RegImm { rd, rn: Gpr::from_index_sp(field(encoding, 9, 5) as u8), imm };
        let op = if field(encoding, 30, 30) == 1 { Op::Sub } else { Op::Add };
        let insn = Instruction::new(encoding, op, form).with_width(
            RegWidth::from_sf(field(encoding, 31, 31) == 1),
        );
        if sets_flags { insn.setting_flags() } else { insn }
    }
}

/// `op0 = 100x` — data processing (immediate).
///
/// Add/sub (immediate) is decoded; move-wide, bitfield, extract, logical
/// (immediate) and PC-relative addressing remain unallocated.
pub fn data_processing_immediate(encoding: u32) -> (r: Instruction)
    ensures
        r.operands_valid(),
        r == spec_data_processing_immediate(encoding),
{
    // Add/sub (immediate): op0=100, op1=010 in bits 25..23.
    if bits(encoding, 25, 23) != 0b010 {
        return unallocated(encoding);
    }

    // `sh` selects a 12-bit left shift of the immediate; the other value of
    // bit 23 belongs to add/sub (immediate, with tags), which needs MTE.
    let imm12 = bits(encoding, 21, 10) as u64;
    let imm = if bits(encoding, 22, 22) == 0 { imm12 } else { imm12 << 12u64 };
    let is_sub = bits(encoding, 30, 30) == 1;
    let sets_flags = bits(encoding, 29, 29) == 1;

    // Rd is SP unless the instruction sets flags, in which case slot 31 is the
    // zero register — the difference between `ADD SP, ...` and `CMN`.
    let rd = if sets_flags {
        Gpr::from_index_zr(register_field(encoding, 0))
    } else {
        Gpr::from_index_sp(register_field(encoding, 0))
    };
    let form = Form::RegImm { rd, rn: Gpr::from_index_sp(register_field(encoding, 5)), imm };

    let op = if is_sub { Op::Sub } else { Op::Add };
    let insn = Instruction::new(encoding, op, form).with_width(
        RegWidth::from_sf(bits(encoding, 31, 31) == 1),
    );

    if sets_flags {
        insn.setting_flags()
    } else {
        insn
    }
}

} // verus!
