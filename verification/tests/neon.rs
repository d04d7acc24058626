use lib::decode::group::simd_fp::neon::data_processing;
use lib::decode::operand::{ElemSize, VecHalf, VecOperand, VecShape};
use lib::decode::{Form, Op};
use lib::reg::Vec;

fn full(index: u8, elem: ElemSize, count: u8) -> VecOperand {
    VecOperand {
        reg: Vec::new(index),
        shape: VecShape::Vector { elem, count, half: VecHalf::Full },
    }
}

#[test]
fn neon_vector_add_decodes_all_three_registers() {
    // add v0.4s, v1.4s, v2.4s
    let insn = data_processing(0x4ea2_8420);
    assert_eq!(insn.op, Op::VecAdd);
    assert_eq!(
        insn.form,
        Form::VecData {
            vd: full(0, ElemSize::S32, 4),
            vn: full(1, ElemSize::S32, 4),
            vm: Some(full(2, ElemSize::S32, 4)),
            va: None,
        }
    );
}

#[test]
fn neon_vector_sub_is_the_unsigned_add() {
    // sub v3.16b, v4.16b, v5.16b
    let insn = data_processing(0x6e25_8483);
    assert_eq!(insn.op, Op::VecSub);
}

#[test]
fn neon_movi_byte_mask_expands_each_bit_to_a_byte() {
    // movi d0, #0xff00ff00ff00ff00
    let insn = data_processing(0x2f05_e540);
    assert_eq!(insn.op, Op::Movi);
    match insn.form {
        Form::VecImm { imm, .. } => assert_eq!(imm, 0xff00_ff00_ff00_ff00),
        other => panic!("unexpected form {:?}", other),
    }
}

#[test]
fn neon_movi_replicated_byte_keeps_the_immediate() {
    // movi v0.16b, #0x41
    let insn = data_processing(0x4f02_e420);
    assert_eq!(insn.op, Op::Movi);
    match insn.form {
        Form::VecImm { imm, .. } => assert_eq!(imm, 0x41),
        other => panic!("unexpected form {:?}", other),
    }
}

#[test]
fn neon_bit_31_set_is_unallocated() {
    let insn = data_processing(0xcea2_8420);
    assert_eq!(insn.op, Op::Unallocated);
    assert_eq!(insn.form, Form::NoOperands);
}

#[test]
fn neon_movi_with_trailing_ones_shifts_by_one_or_two_bytes() {
    // movi v0.4s, #0xab, msl #8
    let insn = data_processing(0x4f05_c560);
    match insn.form {
        Form::VecImm { imm, .. } => assert_eq!(imm, 0xabff),
        other => panic!("unexpected form {:?}", other),
    }
    // movi v0.4s, #0xab, msl #16
    let insn = data_processing(0x4f05_d560);
    assert_eq!(insn.op, Op::Movi);
    match insn.form {
        Form::VecImm { imm, .. } => assert_eq!(imm, 0x00ab_ffff),
        other => panic!("unexpected form {:?}", other),
    }
}
