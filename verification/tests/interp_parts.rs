use lib::decode::address::{AddrMode, WriteBack};
use lib::decode::operand::{Cond, ExtendKind, ExtendedReg, RegWidth, ShiftKind, ShiftedReg};
use lib::decode::Op;
use lib::guest_memory::PHYS_RAM_BASE;
use lib::interp::fetch::{effective_address, read_extended, read_shifted, EffectiveAddress};
use lib::interp::flags::{add_with_carry, is_condition_met, logical_flags};
use lib::interp::{AccessFault, DecodeCache, FlatMemory, Memory, DECODE_CACHE_ENTRIES};
use lib::pstate::Nzcv;
use lib::reg::Gpr;
use lib::regfile::RegFile;

fn regs_with(reg: u8, value: u64) -> RegFile {
    let mut regs = RegFile::new();
    regs.write_x(Gpr::X(reg), value);
    regs
}

fn shifted(kind: ShiftKind, amount: u8) -> ShiftedReg {
    ShiftedReg { reg: Gpr::X(0), kind, amount }
}

#[test]
fn an_arithmetic_shift_right_replicates_the_sign_of_the_operand_width() {
    let regs = regs_with(0, 0xffff_ffff_8000_0000);

    assert_eq!(
        read_shifted(&regs, shifted(ShiftKind::Asr, 4), RegWidth::W32),
        0xf800_0000,
        "W form sees only the low 32 bits and their sign"
    );
    assert_eq!(read_shifted(&regs, shifted(ShiftKind::Asr, 4), RegWidth::X64), 0xffff_ffff_f800_0000);
}

#[test]
fn a_32_bit_rotate_wraps_within_32_bits() {
    let regs = regs_with(0, 0x0000_0000_0000_00ff);

    assert_eq!(read_shifted(&regs, shifted(ShiftKind::Ror, 4), RegWidth::W32), 0xf000_000f);
}

#[test]
fn a_logical_shift_left_drops_bits_above_the_operand_width() {
    let regs = regs_with(0, 0xffff_ffff);

    assert_eq!(read_shifted(&regs, shifted(ShiftKind::Lsl, 4), RegWidth::W32), 0xffff_fff0);
}

#[test]
fn a_signed_extension_widens_from_its_source_width_then_scales() {
    let regs = regs_with(1, 0xffff_ffff_ffff_ff80);

    let value = read_extended(&regs, ExtendedReg { reg: Gpr::X(1), kind: ExtendKind::Sxtb, amount: 2 });

    assert_eq!(value, (-128i64 * 4) as u64);
}

#[test]
fn an_unsigned_extension_discards_the_bits_above_its_source_width() {
    let regs = regs_with(1, 0xdead_beef);

    let value = read_extended(&regs, ExtendedReg { reg: Gpr::X(1), kind: ExtendKind::Uxth, amount: 0 });

    assert_eq!(value, 0xbeef);
}

#[test]
fn a_post_indexed_access_uses_the_old_base_and_writes_back_the_new_one() {
    let regs = regs_with(2, 0x1000);
    let addr = AddrMode::Immediate { base: Gpr::X(2), offset: 8, writeback: WriteBack::Post };

    let computed = effective_address(&regs, addr, 0);

    assert_eq!(computed.address, 0x1000);
    assert_eq!(computed.writeback, Some((Gpr::X(2), 0x1008)));
}

#[test]
fn a_pre_indexed_access_uses_the_new_base_and_writes_it_back() {
    let regs = regs_with(2, 0x1000);
    let addr = AddrMode::Immediate { base: Gpr::X(2), offset: -8, writeback: WriteBack::Pre };

    let computed = effective_address(&regs, addr, 0);

    assert_eq!(computed.address, 0x0ff8);
    assert_eq!(computed.writeback, Some((Gpr::X(2), 0x0ff8)));
}

#[test]
fn a_plain_offset_access_owes_no_write_back() {
    let regs = regs_with(2, 0x1000);
    let addr = AddrMode::Immediate { base: Gpr::X(2), offset: 8, writeback: WriteBack::NoUpdate };

    assert_eq!(effective_address(&regs, addr, 0), EffectiveAddress { address: 0x1008, writeback: None });
}

#[test]
fn a_literal_access_is_relative_to_the_instructions_own_address() {
    let regs = RegFile::new();

    let computed = effective_address(&regs, AddrMode::PcRelative { offset: -16 }, 0x8000);

    assert_eq!(computed.address, 0x7ff0);
    assert_eq!(computed.writeback, None);
}

#[test]
fn a_register_offset_access_adds_the_extended_index() {
    let mut regs = regs_with(2, 0x1000);
    regs.write_x(Gpr::X(3), 4);
    let addr = AddrMode::Register {
        base: Gpr::X(2),
        index: ExtendedReg { reg: Gpr::X(3), kind: ExtendKind::Uxtx, amount: 3 },
        writeback: WriteBack::NoUpdate,
    };

    assert_eq!(effective_address(&regs, addr, 0), EffectiveAddress { address: 0x1020, writeback: None });
}

#[test]
fn adding_zero_to_zero_sets_only_the_zero_flag() {
    let result = add_with_carry((0, 0), false, RegWidth::X64);

    assert_eq!(result.value, 0);
    assert_eq!(result.flags, Nzcv { n: false, z: true, c: false, v: false });
}

#[test]
fn carry_out_is_taken_from_the_top_of_the_operand_width_not_the_register() {
    // 0xffff_ffff + 1 carries out of bit 31 at W but not at X.
    let narrow = add_with_carry((0xffff_ffff, 1), false, RegWidth::W32);
    assert!(narrow.flags.c);
    assert_eq!(narrow.value, 0);

    let wide = add_with_carry((0xffff_ffff, 1), false, RegWidth::X64);
    assert!(!wide.flags.c);
    assert_eq!(wide.value, 0x1_0000_0000);
}

#[test]
fn signed_overflow_is_distinct_from_unsigned_carry() {
    // 0x7fff_ffff + 1 overflows signed 32-bit without carrying out.
    let result = add_with_carry((0x7fff_ffff, 1), false, RegWidth::W32);

    assert!(result.flags.v);
    assert!(!result.flags.c);
    assert!(result.flags.n);
}

#[test]
fn subtracting_equal_values_sets_zero_and_carry() {
    // SUBS is add_with_carry(left, !right, 1).
    let result = add_with_carry((7, !7), true, RegWidth::X64);

    assert_eq!(result.value, 0);
    assert!(result.flags.z);
    assert!(result.flags.c, "no borrow means carry set");
    assert!(!result.flags.v);
}

#[test]
fn carry_in_participates_in_the_result_and_the_flags() {
    let result = add_with_carry((u64::MAX, 0), true, RegWidth::X64);

    assert_eq!(result.value, 0);
    assert!(result.flags.c);
    assert!(result.flags.z);
}

#[test]
fn logical_operations_clear_carry_and_overflow() {
    let flags = logical_flags(0xffff_ffff_ffff_ffff, RegWidth::X64);

    assert_eq!(flags, Nzcv { n: true, z: false, c: false, v: false });
    assert!(logical_flags(0, RegWidth::W32).z);
    assert!(logical_flags(0x8000_0000, RegWidth::W32).n);
    assert!(!logical_flags(0x8000_0000, RegWidth::X64).n);
}

#[test]
fn each_condition_is_the_negation_of_its_inverse() {
    let all_flag_combinations = (0..16u8).map(Nzcv::from_bits);

    for flags in all_flag_combinations {
        for bits in 0..14u8 {
            let cond = Cond::from_bits(bits);
            assert_ne!(
                is_condition_met(cond, flags),
                is_condition_met(cond.invert(), flags),
                "{cond:?} under {flags:?}"
            );
        }
    }
}

#[test]
fn always_and_never_both_test_true() {
    let flags = Nzcv::from_bits(0);

    assert!(is_condition_met(Cond::Al, flags));
    assert!(is_condition_met(Cond::Nv, flags));
}

#[test]
fn the_signed_and_unsigned_orderings_disagree_where_they_should() {
    // CMP w0, w1 with w0 = -1, w1 = 1: signed less-than, unsigned higher.
    let result = add_with_carry((0xffff_ffffu64, !1u64), true, RegWidth::W32);

    assert!(is_condition_met(Cond::Lt, result.flags));
    assert!(is_condition_met(Cond::Hi, result.flags));
}

fn memory() -> FlatMemory {
    FlatMemory::new(4096)
}

#[test]
fn a_stored_value_reads_back_at_every_width() {
    let mut mem = memory();
    let address = PHYS_RAM_BASE + 8;

    mem.write_uint(address, 8, 0x8877_6655_4433_2211).expect("in range");

    assert_eq!(mem.read_uint(address, 1), Ok(0x11));
    assert_eq!(mem.read_uint(address, 2), Ok(0x2211));
    assert_eq!(mem.read_uint(address, 4), Ok(0x4433_2211));
    assert_eq!(mem.read_uint(address, 8), Ok(0x8877_6655_4433_2211));
}

#[test]
fn a_narrow_write_leaves_the_neighbouring_bytes_alone() {
    let mut mem = memory();
    let address = PHYS_RAM_BASE + 16;
    mem.write_uint(address, 8, u64::MAX).expect("in range");

    mem.write_uint(address, 1, 0).expect("in range");

    assert_eq!(mem.read_uint(address, 8), Ok(0xffff_ffff_ffff_ff00));
}

#[test]
fn an_access_below_the_mapped_window_faults_rather_than_wrapping() {
    let mem = memory();

    assert_eq!(mem.read_uint(PHYS_RAM_BASE - 1, 1), Err(AccessFault { address: PHYS_RAM_BASE - 1, is_write: false }));
}

#[test]
fn an_access_straddling_the_end_of_the_window_faults() {
    let mut mem = memory();
    let last = mem.limit() - 1;

    assert_eq!(mem.read_uint(last, 1), Ok(0));
    assert_eq!(mem.write_uint(last, 2, 0), Err(AccessFault { address: last, is_write: true }));
}

#[test]
fn a_borrowed_slice_sees_what_was_stored_there() {
    let mut mem = memory();
    let address = PHYS_RAM_BASE + 32;

    mem.store_slice(address, b"hi").expect("in range");

    assert_eq!(mem.slice(address, 2), Ok(b"hi".to_vec()));
    assert!(mem.slice(mem.limit() - 1, 2).is_err());
}

#[test]
fn a_faulting_write_changes_no_byte() {
    let mut mem = FlatMemory::at(0x1000, 16);
    mem.write_uint(0x1008, 8, 0x0102_0304_0506_0708).expect("in range");

    assert!(mem.write_uint(0x100c, 8, u64::MAX).is_err());

    assert_eq!(mem.read_uint(0x1008, 8), Ok(0x0102_0304_0506_0708));
    assert_eq!(mem.base(), 0x1000);
    assert_eq!(mem.limit(), 0x1010);
}

#[test]
fn a_repeated_lookup_at_one_pc_decodes_only_once() {
    let mut cache = DecodeCache::new();
    // add x0, x0, #1
    let encoding = 0x9100_0400;

    for _ in 0..100 {
        assert_eq!(cache.decoded(0x1000, encoding).op, Op::Add);
    }

    assert_eq!(cache.misses(), 1);
    assert_eq!(cache.hits(), 99);
}

#[test]
fn rewriting_the_word_at_a_pc_re_decodes_it_without_explicit_invalidation() {
    let mut cache = DecodeCache::new();

    assert_eq!(cache.decoded(0x1000, 0x9100_0400).op, Op::Add);
    // sub x0, x0, #1 at the same address.
    assert_eq!(cache.decoded(0x1000, 0xd100_0400).op, Op::Sub);

    assert_eq!(cache.misses(), 2);
    assert_eq!(cache.hits(), 0);
}

#[test]
fn two_pcs_that_alias_one_slot_evict_each_other_but_stay_correct() {
    let mut cache = DecodeCache::new();
    let stride = DECODE_CACHE_ENTRIES as u64 * 4;

    for _ in 0..10 {
        assert_eq!(cache.decoded(0x1000, 0x9100_0400).op, Op::Add);
        assert_eq!(cache.decoded(0x1000 + stride, 0xd100_0400).op, Op::Sub);
    }

    assert_eq!(cache.hits(), 0, "the two entries alias");
    assert_eq!(cache.misses(), 20);
}

#[test]
fn an_all_zero_word_is_never_served_from_an_empty_slot() {
    // Slot tags start at zero, so a guest word of zero must not read as a
    // hit on a slot nothing was ever stored in.
    let mut cache = DecodeCache::new();

    let insn = cache.decoded(0x2000, 0);

    assert!(insn.op.is_unallocated());
    assert_eq!(cache.hits(), 0);
    assert_eq!(cache.misses(), 1);
}

#[test]
fn a_hot_loop_that_fits_the_cache_misses_only_on_its_first_pass() {
    let mut cache = DecodeCache::new();
    let body: [u32; 4] = [0x9100_0400, 0xd100_0400, 0x8b01_0020, 0x1400_0000];

    for _ in 0..50 {
        for (index, encoding) in body.iter().enumerate() {
            cache.decoded(0x3000 + index as u64 * 4, *encoding);
        }
    }

    assert_eq!(cache.misses(), body.len() as u64);
}

#[test]
fn a_cached_decoding_equals_a_fresh_one() {
    let mut cache = DecodeCache::new();
    for encoding in [0x9100_0400u32, 0xf940_0820, 0xd65f_03c0, 0x4e20_8400] {
        let first = cache.decoded(0x4000, encoding);
        let second = cache.decoded(0x4000, encoding);
        assert_eq!(first, lib::decode::decode(encoding));
        assert_eq!(second, first);
    }
}
