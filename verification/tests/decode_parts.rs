use lib::decode::address::{AccessSize, AddrMode, MemoryOrdering, WriteBack};
use lib::decode::instruction::{unallocated, Form, Instruction};
use lib::decode::op::Op;
use lib::decode::operand::{Cond, ElemSize, ExtendKind, ExtendedReg, RegWidth, ShiftKind, ShiftedReg};
use lib::decode::{decode, EncodingGroup};
use lib::reg::Gpr;

#[test]
fn the_sf_bit_selects_operand_width_and_its_mask() {
    assert_eq!(RegWidth::from_sf(false), RegWidth::W32);
    assert_eq!(RegWidth::from_sf(true), RegWidth::X64);
    assert_eq!(RegWidth::W32.mask(), 0xffff_ffff);
    assert_eq!(RegWidth::X64.mask(), u64::MAX);
    assert_eq!(RegWidth::W32.bits(), 32);
    assert_eq!(RegWidth::X64.bits(), 64);
}

#[test]
fn extend_options_decode_in_encoding_order() {
    let expected = [
        (ExtendKind::Uxtb, 8, false),
        (ExtendKind::Uxth, 16, false),
        (ExtendKind::Uxtw, 32, false),
        (ExtendKind::Uxtx, 64, false),
        (ExtendKind::Sxtb, 8, true),
        (ExtendKind::Sxth, 16, true),
        (ExtendKind::Sxtw, 32, true),
        (ExtendKind::Sxtx, 64, true),
    ];

    for (option, (kind, bits, is_signed)) in expected.into_iter().enumerate() {
        let decoded = ExtendKind::from_option(option as u8);
        assert_eq!(decoded, kind);
        assert_eq!(decoded.source_bits(), bits);
        assert_eq!(decoded.is_signed(), is_signed);
    }
}

#[test]
fn condition_codes_decode_in_encoding_order() {
    assert_eq!(Cond::from_bits(0b0000), Cond::Eq);
    assert_eq!(Cond::from_bits(0b0111), Cond::Vc);
    assert_eq!(Cond::from_bits(0b1101), Cond::Le);
    assert_eq!(Cond::from_bits(0b1110), Cond::Al);
    assert_eq!(Cond::from_bits(0b1111), Cond::Nv);
}

#[test]
fn inverting_a_condition_flips_the_low_encoding_bit() {
    // The architecture defines cond<0> as the inversion bit, so this is the
    // property the table must satisfy — except for AL/NV, which both pass.
    for bits in 0..14u8 {
        let cond = Cond::from_bits(bits);
        assert_eq!(cond.invert(), Cond::from_bits(bits ^ 1));
        assert_eq!(cond.invert().invert(), cond);
    }
    assert_eq!(Cond::Al.invert(), Cond::Al);
    assert_eq!(Cond::Nv.invert(), Cond::Nv);
}

#[test]
fn element_sizes_decode_from_the_two_bit_size_field() {
    assert_eq!(ElemSize::from_size(0b00).bits(), 8);
    assert_eq!(ElemSize::from_size(0b01).bits(), 16);
    assert_eq!(ElemSize::from_size(0b10).bits(), 32);
    assert_eq!(ElemSize::from_size(0b11).bits(), 64);
    assert_eq!(ElemSize::Q128.bits(), 128);
}

#[test]
fn every_register_based_mode_reports_its_base() {
    let base = Gpr::SP;

    assert_eq!(AddrMode::Immediate { base, offset: 8, writeback: WriteBack::NoUpdate }.base(), Some(base));
    assert_eq!(AddrMode::BaseOnly { base }.base(), Some(base));
    assert_eq!(
        AddrMode::Register {
            base,
            index: ExtendedReg { reg: Gpr::X(1), kind: ExtendKind::Uxtx, amount: 3 },
            writeback: WriteBack::NoUpdate,
        }
        .base(),
        Some(base)
    );
    assert_eq!(AddrMode::PcRelative { offset: -4 }.base(), None);
}

#[test]
fn only_pre_and_post_indexed_modes_write_back() {
    let indexed = |writeback| AddrMode::Immediate { base: Gpr::X(0), offset: 16, writeback };

    assert!(!indexed(WriteBack::NoUpdate).has_writeback());
    assert!(indexed(WriteBack::Pre).has_writeback());
    assert!(indexed(WriteBack::Post).has_writeback());
    assert!(!AddrMode::BaseOnly { base: Gpr::X(0) }.has_writeback());
}

#[test]
fn the_access_scale_is_log2_of_its_width() {
    assert_eq!(AccessSize::byte().scale(), 0);
    assert_eq!(AccessSize::halfword().scale(), 1);
    assert_eq!(AccessSize::word().scale(), 2);
    assert_eq!(AccessSize::doubleword().scale(), 3);
    assert_eq!(AccessSize::quadword().scale(), 4);
}

#[test]
fn a_plain_access_imposes_no_ordering() {
    assert_eq!(MemoryOrdering::plain(), MemoryOrdering::default());
}

#[test]
fn an_instruction_defaults_to_64_bit_operands_without_flags() {
    let insn = Instruction::new(
        0x8b01_0020,
        Op::Add,
        Form::RegShifted {
            rd: Gpr::X(0),
            rn: Gpr::X(1),
            rm: ShiftedReg { reg: Gpr::X(1), kind: ShiftKind::Lsl, amount: 0 },
        },
    );

    assert_eq!(insn.width, RegWidth::X64);
    assert!(!insn.sets_flags);
    assert_eq!(insn.encoding, 0x8b01_0020);
}

#[test]
fn width_and_flag_setting_are_independent_of_the_opcode() {
    let insn = Instruction::new(0, Op::Add, Form::NoOperands).with_width(RegWidth::W32).setting_flags();

    assert_eq!(insn.width, RegWidth::W32);
    assert!(insn.sets_flags);
    assert_eq!(insn.op, Op::Add);
}

#[test]
fn an_unallocated_encoding_is_an_instruction_not_an_error() {
    let insn = unallocated(0xffff_ffff);

    assert!(insn.op.is_unallocated());
    assert_eq!(insn.encoding, 0xffff_ffff);
    assert!(!Op::Add.is_unallocated());
}

#[test]
fn a_decoded_instruction_stays_small_enough_to_cache_by_value() {
    // The decoded-instruction cache stores these inline. A regression here
    // would show up as cache pressure in the interpreter, not a test
    // failure, so the size is asserted rather than assumed.
    assert!(
        core::mem::size_of::<Instruction>() <= 48,
        "Instruction grew to {} bytes",
        core::mem::size_of::<Instruction>()
    );
}

/// `op0` is bits 28..25, so this places `op0` and leaves the rest zero.
fn word_with_op0(op0: u32) -> u32 {
    op0 << 25
}

#[test]
fn op0_routes_each_encoding_to_the_group_the_arm_arm_names() {
    let expected = [
        (0b0000, EncodingGroup::Reserved),
        (0b0001, EncodingGroup::Unallocated),
        (0b0010, EncodingGroup::Sve),
        (0b0011, EncodingGroup::Unallocated),
        (0b0100, EncodingGroup::LoadsAndStores),
        (0b0101, EncodingGroup::DataProcessingRegister),
        (0b0110, EncodingGroup::LoadsAndStores),
        (0b0111, EncodingGroup::DataProcessingSimdFp),
        (0b1000, EncodingGroup::DataProcessingImmediate),
        (0b1001, EncodingGroup::DataProcessingImmediate),
        (0b1010, EncodingGroup::BranchesExceptionsSystem),
        (0b1011, EncodingGroup::BranchesExceptionsSystem),
        (0b1100, EncodingGroup::LoadsAndStores),
        (0b1101, EncodingGroup::DataProcessingRegister),
        (0b1110, EncodingGroup::LoadsAndStores),
        (0b1111, EncodingGroup::DataProcessingSimdFp),
    ];

    for (op0, group) in expected {
        assert_eq!(EncodingGroup::of(word_with_op0(op0)), group, "op0 = {op0:04b}");
    }
}

#[test]
fn bits_outside_op0_do_not_change_the_group() {
    let op0_mask = 0b1111 << 25;

    for op0 in 0..16u32 {
        let group = EncodingGroup::of(word_with_op0(op0));
        assert_eq!(EncodingGroup::of(word_with_op0(op0) | !op0_mask), group);
    }
}

#[test]
fn sve_and_the_reserved_spaces_decode_as_unallocated() {
    // The machine advertises no SVE, so its whole encoding space must fault
    // exactly as the unallocated space does.
    for op0 in [0b0000, 0b0001, 0b0010, 0b0011] {
        assert!(decode(word_with_op0(op0)).op.is_unallocated());
    }
}

#[test]
fn decode_is_total_over_a_wide_sweep_of_encodings() {
    // Decoding must terminate with an Instruction for every word, never panic.
    let mut state = 0x2545_f491_4f6c_dd1du64;
    for _ in 0..200_000 {
        state ^= state << 13;
        state ^= state >> 7;
        state ^= state << 17;
        let insn = decode(state as u32);
        assert_eq!(insn.encoding, state as u32);
    }
}

#[test]
fn merging_opcodes_read_their_destination() {
    for op in [
        Op::Movk,
        Op::Bfm,
        Op::VecBsl,
        Op::Fmla,
        Op::Ins,
        Op::Fmls,
        Op::VecMla,
        Op::VecMls,
        Op::VecBit,
        Op::VecBif,
        Op::InsGpr,
        Op::Tbx,
    ] {
        assert!(op.reads_destination(), "{op:?} merges into its destination");
    }
}

#[test]
fn overwriting_opcodes_do_not_read_their_destination() {
    // MOVZ is MOVK's overwriting counterpart, and FMUL is FMLA's
    // non-accumulating one; both are the near miss worth pinning.
    for op in [Op::Movz, Op::Add, Op::Fmul, Op::Ldr, Op::Tbl, Op::Dup] {
        assert!(!op.reads_destination(), "{op:?} overwrites its destination");
    }
}
