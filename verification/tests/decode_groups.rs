use lib::decode::address::{AccessSize, AddrMode, MemoryOrdering, WriteBack};
use lib::decode::operand::{RegWidth, ShiftKind, ShiftedReg};
use lib::decode::{decode, Form, Op};
use lib::reg::Gpr;

#[test]
fn mod_add_immediate_resolves_slot_31_as_sp_and_keeps_its_immediate() {
    // add sp, sp, #0x10
    let insn = decode(0x9100_43ff);

    assert_eq!(insn.op, Op::Add);
    assert!(!insn.sets_flags);
    assert_eq!(insn.width, RegWidth::X64);
    assert_eq!(insn.form, Form::RegImm { rd: Gpr::SP, rn: Gpr::SP, imm: 0x10 });
}

#[test]
fn mod_a_flag_setting_add_immediate_resolves_slot_31_as_the_zero_register() {
    // cmn x0, #1 — an alias of `adds xzr, x0, #1`.
    let insn = decode(0xb100_041f);

    assert_eq!(insn.op, Op::Add);
    assert!(insn.sets_flags);
    assert_eq!(insn.form, Form::RegImm { rd: Gpr::ZR, rn: Gpr::X(0), imm: 1 });
}

#[test]
fn mod_a_shifted_immediate_is_expanded_at_decode_time() {
    // add x0, x0, #0x1000  (sh = 1, imm12 = 1)
    let insn = decode(0x9140_0400);

    assert_eq!(insn.form, Form::RegImm { rd: Gpr::X(0), rn: Gpr::X(0), imm: 0x1000 });
}

#[test]
fn mod_a_32_bit_add_immediate_reports_the_narrow_width() {
    // add w1, w2, #3
    let insn = decode(0x1100_0c41);

    assert_eq!(insn.width, RegWidth::W32);
    assert_eq!(insn.op, Op::Add);
}

#[test]
fn mod_branch_offsets_are_sign_extended_and_scaled_to_bytes() {
    // b .+8
    assert_eq!(decode(0x1400_0002).form, Form::Branch { offset: 8 }, "forward branch");
    // bl .-8
    let backward = decode(0x97ff_fffe);
    assert_eq!(backward.op, Op::Bl);
    assert_eq!(backward.form, Form::Branch { offset: -8 });
}

#[test]
fn mod_ret_decodes_to_an_indirect_branch_through_its_link_register() {
    // ret  (implicitly x30)
    let insn = decode(0xd65f_03c0);

    assert_eq!(insn.op, Op::Ret);
    assert_eq!(insn.form, Form::BranchIndirect { rn: Gpr::X(30) });
}

#[test]
fn mod_nop_decodes_with_no_operands() {
    let insn = decode(0xd503_201f);

    assert_eq!(insn.op, Op::Nop);
    assert_eq!(insn.form, Form::NoOperands);
}

#[test]
fn mod_an_unsigned_offset_load_scales_its_immediate_by_the_access_size() {
    // ldr x0, [x1, #16]  — imm12 = 2, scaled by 8
    let insn = decode(0xf940_0820);

    assert_eq!(insn.op, Op::Ldr);
    assert_eq!(
        insn.form,
        Form::LoadStore {
            rt: Gpr::X(0),
            rt2: None,
            rs: None,
            addr: AddrMode::Immediate { base: Gpr::X(1), offset: 16, writeback: WriteBack::NoUpdate },
            size: AccessSize::doubleword(),
            ordering: MemoryOrdering::plain(),
        }
    );
}

#[test]
fn mod_a_byte_store_reports_a_one_byte_unsigned_access() {
    // strb w0, [x1, #3]
    let insn = decode(0x3900_0c20);

    assert_eq!(insn.op, Op::Str);
    let Form::LoadStore { size, addr, .. } = insn.form else {
        panic!("expected a single-register load/store, got {:?}", insn.form);
    };
    assert_eq!(size, AccessSize::byte());
    assert_eq!(addr, AddrMode::Immediate { base: Gpr::X(1), offset: 3, writeback: WriteBack::NoUpdate });
}

#[test]
fn mod_a_load_through_slot_31_uses_the_stack_pointer_as_its_base() {
    // ldr x0, [sp]
    let insn = decode(0xf940_03e0);

    let Form::LoadStore { addr, .. } = insn.form else {
        panic!("expected a single-register load/store, got {:?}", insn.form);
    };
    assert_eq!(addr.base(), Some(Gpr::SP));
}

#[test]
fn mod_shifted_register_forms_carry_their_shift_kind_and_amount() {
    // add x0, x1, x2, lsl #4
    let insn = decode(0x8b02_1020);

    assert_eq!(insn.op, Op::Add);
    assert_eq!(
        insn.form,
        Form::RegShifted {
            rd: Gpr::X(0),
            rn: Gpr::X(1),
            rm: ShiftedReg { reg: Gpr::X(2), kind: ShiftKind::Lsl, amount: 4 },
        }
    );
}

#[test]
fn mod_the_logical_group_sets_flags_only_for_ands() {
    // and x0, x1, x2
    assert!(!decode(0x8a02_0020).sets_flags);
    // ands x0, x1, x2
    let ands = decode(0xea02_0020);
    assert_eq!(ands.op, Op::And);
    assert!(ands.sets_flags);
    // orr x0, x1, x2
    let orr = decode(0xaa02_0020);
    assert_eq!(orr.op, Op::Orr);
    assert!(!orr.sets_flags);
}

#[test]
fn group_add_immediate_resolves_slot_31_as_sp_and_keeps_its_immediate() {
    // add sp, sp, #0x10
    let insn = decode(0x9100_43ff);

    assert_eq!(insn.op, Op::Add);
    assert!(!insn.sets_flags);
    assert_eq!(insn.width, RegWidth::X64);
    assert_eq!(insn.form, Form::RegImm { rd: Gpr::SP, rn: Gpr::SP, imm: 0x10 });
}

#[test]
fn group_a_flag_setting_add_immediate_resolves_slot_31_as_the_zero_register() {
    // cmn x0, #1 — an alias of `adds xzr, x0, #1`.
    let insn = decode(0xb100_041f);

    assert_eq!(insn.op, Op::Add);
    assert!(insn.sets_flags);
    assert_eq!(insn.form, Form::RegImm { rd: Gpr::ZR, rn: Gpr::X(0), imm: 1 });
}

#[test]
fn group_a_shifted_immediate_is_expanded_at_decode_time() {
    // add x0, x0, #0x1000  (sh = 1, imm12 = 1)
    let insn = decode(0x9140_0400);

    assert_eq!(insn.form, Form::RegImm { rd: Gpr::X(0), rn: Gpr::X(0), imm: 0x1000 });
}

#[test]
fn group_a_32_bit_add_immediate_reports_the_narrow_width() {
    // add w1, w2, #3
    let insn = decode(0x1100_0c41);

    assert_eq!(insn.width, RegWidth::W32);
    assert_eq!(insn.op, Op::Add);
}

#[test]
fn group_branch_offsets_are_sign_extended_and_scaled_to_bytes() {
    // b .+8
    assert_eq!(decode(0x1400_0002).form, Form::Branch { offset: 8 }, "forward branch");
    // bl .-8
    let backward = decode(0x97ff_fffe);
    assert_eq!(backward.op, Op::Bl);
    assert_eq!(backward.form, Form::Branch { offset: -8 });
}

#[test]
fn group_ret_decodes_to_an_indirect_branch_through_its_link_register() {
    // ret  (implicitly x30)
    let insn = decode(0xd65f_03c0);

    assert_eq!(insn.op, Op::Ret);
    assert_eq!(insn.form, Form::BranchIndirect { rn: Gpr::X(30) });
}

#[test]
fn group_nop_decodes_with_no_operands() {
    let insn = decode(0xd503_201f);

    assert_eq!(insn.op, Op::Nop);
    assert_eq!(insn.form, Form::NoOperands);
}

#[test]
fn group_an_unsigned_offset_load_scales_its_immediate_by_the_access_size() {
    // ldr x0, [x1, #16]  — imm12 = 2, scaled by 8
    let insn = decode(0xf940_0820);

    assert_eq!(insn.op, Op::Ldr);
    assert_eq!(
        insn.form,
        Form::LoadStore {
            rt: Gpr::X(0),
            rt2: None,
            rs: None,
            addr: AddrMode::Immediate { base: Gpr::X(1), offset: 16, writeback: WriteBack::NoUpdate },
            size: AccessSize::doubleword(),
            ordering: MemoryOrdering::plain(),
        }
    );
}

#[test]
fn group_a_byte_store_reports_a_one_byte_unsigned_access() {
    // strb w0, [x1, #3]
    let insn = decode(0x3900_0c20);

    assert_eq!(insn.op, Op::Str);
    let Form::LoadStore { size, addr, .. } = insn.form else {
        panic!("expected a single-register load/store, got {:?}", insn.form);
    };
    assert_eq!(size, AccessSize::byte());
    assert_eq!(addr, AddrMode::Immediate { base: Gpr::X(1), offset: 3, writeback: WriteBack::NoUpdate });
}

#[test]
fn group_a_load_through_slot_31_uses_the_stack_pointer_as_its_base() {
    // ldr x0, [sp]
    let insn = decode(0xf940_03e0);

    let Form::LoadStore { addr, .. } = insn.form else {
        panic!("expected a single-register load/store, got {:?}", insn.form);
    };
    assert_eq!(addr.base(), Some(Gpr::SP));
}

#[test]
fn group_shifted_register_forms_carry_their_shift_kind_and_amount() {
    // add x0, x1, x2, lsl #4
    let insn = decode(0x8b02_1020);

    assert_eq!(insn.op, Op::Add);
    assert_eq!(
        insn.form,
        Form::RegShifted {
            rd: Gpr::X(0),
            rn: Gpr::X(1),
            rm: ShiftedReg { reg: Gpr::X(2), kind: ShiftKind::Lsl, amount: 4 },
        }
    );
}

#[test]
fn group_the_logical_group_sets_flags_only_for_ands() {
    // and x0, x1, x2
    assert!(!decode(0x8a02_0020).sets_flags);
    // ands x0, x1, x2
    let ands = decode(0xea02_0020);
    assert_eq!(ands.op, Op::And);
    assert!(ands.sets_flags);
    // orr x0, x1, x2
    let orr = decode(0xaa02_0020);
    assert_eq!(orr.op, Op::Orr);
    assert!(!orr.sets_flags);
}

#[test]
fn the_advanced_simd_half_of_the_fp_group_is_still_unclaimed() {
    // Scalar FP has landed, so its encodings decode. Advanced SIMD is
    // implemented lazily off the unimplemented-opcode trap, so what it has not
    // claimed must still fault rather than decode to something approximate.
    assert_eq!(decode(0x1e20_2800).op, Op::Fadd);
    assert!(decode(0x4e20_8400).op.is_unallocated());
}

#[test]
fn the_register_offset_load_is_the_option_eleven_form() {
    // Bit 21 set with 11 in bits 11..10: Rn = x1, Rm = x2, option 011.
    let insn = decode(0xf862_6c20);
    assert_eq!(insn.op, Op::Ldr);
    let Form::LoadStore { addr, .. } = insn.form else {
        panic!("expected a load");
    };
    assert!(matches!(addr, AddrMode::Register { base: Gpr::X(1), .. }));

    // The other three values of bits 11..10 are the LSE space, not claimed.
    assert_eq!(decode(0xf862_6820).op, Op::Unallocated);
}
