use lib::guest_memory::{linear_offset, reserve, LayoutError, DEFAULT_RAM_BYTES, MAX_RAM_BYTES, PAGE_SIZE, PHYS_RAM_BASE, RAM_BASE};
use lib::pstate::{Daif, ExceptionLevel, Nzcv, Pstate, StackPointerSelect};
use lib::reg::{trace_reg_id, Gpr, Vec, NUM_GPR, VEC_COUNT};
use lib::regfile::RegFile;
use lib::threading::{IdleStrategy, IDLE_STRATEGY, REQUIRES_CROSS_ORIGIN_ISOLATION};

#[test]
fn the_zero_register_reads_zero_and_swallows_writes() {
    let mut regs = RegFile::new();

    regs.write_x(Gpr::ZR, 0xdead_beef_dead_beef);

    assert_eq!(regs.read_x(Gpr::ZR), 0);
    // Nothing else moved either.
    assert_eq!(regs, RegFile::new());
}

#[test]
fn sp_and_x_slot_31_are_different_storage() {
    let mut regs = RegFile::new();

    regs.write_x(Gpr::SP, 0x1000);
    regs.write_x(Gpr::X(30), 0x2000);

    assert_eq!(regs.read_x(Gpr::SP), 0x1000);
    assert_eq!(regs.sp(), 0x1000);
    assert_eq!(regs.read_x(Gpr::X(30)), 0x2000);
}

#[test]
fn a_w_form_write_clears_the_upper_half() {
    let mut regs = RegFile::new();
    regs.write_x(Gpr::X(5), 0xffff_ffff_ffff_ffff);

    regs.write_w(Gpr::X(5), 0x1234_5678);

    assert_eq!(regs.read_x(Gpr::X(5)), 0x1234_5678);
    assert_eq!(regs.read_w(Gpr::X(5)), 0x1234_5678);
}

#[test]
fn vector_registers_hold_all_128_bits() {
    let mut regs = RegFile::new();
    let value = 0x0f0e_0d0c_0b0a_0908_0706_0504_0302_0100u128;

    regs.write_v(Vec::new(31), value);

    assert_eq!(regs.read_v(Vec::new(31)), value);
    assert_eq!(regs.read_v(Vec::new(30)), 0);
}

#[test]
fn every_general_purpose_register_is_independent_storage() {
    let mut regs = RegFile::new();

    for index in 0..NUM_GPR as u8 {
        regs.write_x(Gpr::X(index), 0x100 + index as u64);
    }

    for index in 0..NUM_GPR as u8 {
        assert_eq!(regs.x(index), 0x100 + index as u64);
    }
}

#[test]
fn a_written_register_reads_back_and_its_neighbours_do_not_move() {
    let mut regs = RegFile::new();
    regs.write_x(Gpr::X(7), 42);
    regs.set_sp(0x8000);
    regs.set_pc(0x4000);

    assert_eq!(regs.read_x(Gpr::X(7)), 42);
    assert_eq!(regs.read_x(Gpr::X(6)), 0);
    assert_eq!(regs.read_x(Gpr::X(8)), 0);
    assert_eq!(regs.sp(), 0x8000);
    assert_eq!(regs.pc(), 0x4000);
}

#[test]
fn slot_31_resolves_to_the_register_the_encoding_asked_for() {
    assert_eq!(Gpr::from_index_zr(31), Gpr::ZR);
    assert_eq!(Gpr::from_index_sp(31), Gpr::SP);
    assert_eq!(Gpr::from_index_zr(30), Gpr::X(30));
    assert_eq!(Gpr::from_index_sp(30), Gpr::X(30));
}

#[test]
fn only_the_zero_register_discards_writes() {
    assert!(Gpr::ZR.is_zero());
    assert!(!Gpr::SP.is_zero());
    assert!(!Gpr::X(0).is_zero());
}

#[test]
fn trace_ids_match_the_wire_contract() {
    // Quoted verbatim as numbers so a renumbering of the constants cannot pass
    // silently.
    assert_eq!(trace_reg_id::gpr(0), 0);
    assert_eq!(trace_reg_id::gpr(30), 30);
    assert_eq!(trace_reg_id::SP, 31);
    assert_eq!(trace_reg_id::PC, 32);
    assert_eq!(trace_reg_id::PSTATE, 33);
    assert_eq!(trace_reg_id::FPCR, 34);
    assert_eq!(trace_reg_id::FPSR, 35);
    assert_eq!(trace_reg_id::vec_lo(0), 64);
    assert_eq!(trace_reg_id::vec_hi(0), 65);
    assert_eq!(trace_reg_id::vec_lo(31), 126);
    assert_eq!(trace_reg_id::vec_hi(31), 127);
    assert_eq!(trace_reg_id::SYS_BASE, 256);
}

#[test]
fn vector_registers_keep_the_slot_they_were_built_from() {
    for index in 0..VEC_COUNT as u8 {
        assert_eq!(Vec::new(index).index(), index);
    }
}

#[test]
fn condition_flags_round_trip_through_their_packed_field() {
    for bits in 0..16u8 {
        assert_eq!(Nzcv::from_bits(bits).to_bits(), bits);
        assert_eq!(Daif::from_bits(bits).to_bits(), bits);
    }
}

#[test]
fn the_trace_word_places_every_field_where_the_format_says() {
    let state = Pstate {
        nzcv: Nzcv::from_bits(0b1010),
        daif: Daif::from_bits(0b0110),
        el: ExceptionLevel::El1,
        sp_sel: StackPointerSelect::Elx,
    };

    let word = state.to_trace_word();

    assert_eq!((word >> 28) & 0xf, 0b1010);
    assert_eq!((word >> 6) & 0xf, 0b0110);
    assert_eq!((word >> 2) & 0x3, 1);
    assert_eq!(word & 1, 1);
}

#[test]
fn the_trace_word_leaves_every_other_bit_zero() {
    // Stray bits are what produce false divergences against QEMU's `cpsr`.
    let all_fields_set = Pstate {
        nzcv: Nzcv::from_bits(0b1111),
        daif: Daif::from_bits(0b1111),
        el: ExceptionLevel::El1,
        sp_sel: StackPointerSelect::Elx,
    };

    let occupied = 0xf << 28 | 0xf << 6 | 0x3 << 2 | 1;
    assert_eq!(all_fields_set.to_trace_word() & !occupied, 0);
    assert_eq!(Pstate::default().to_trace_word(), 0);
}

#[test]
fn default_ram_reserves_a_page_aligned_window_above_the_rust_heap() {
    let (start, end) = reserve(DEFAULT_RAM_BYTES).expect("1 GiB must fit");

    assert_eq!(start, RAM_BASE);
    assert_eq!(end - start, DEFAULT_RAM_BYTES);
    assert_eq!(end, 2 << 30);
}

#[test]
fn ram_beyond_the_wasm32_address_space_is_rejected() {
    let too_big = MAX_RAM_BYTES + PAGE_SIZE;

    assert_eq!(reserve(too_big), Err(LayoutError::TooLarge { requested: too_big, max: MAX_RAM_BYTES }));
}

#[test]
fn unaligned_and_empty_sizes_are_rejected() {
    assert_eq!(reserve(PAGE_SIZE + 1), Err(LayoutError::Unaligned { requested: PAGE_SIZE + 1 }));
    assert_eq!(reserve(0), Err(LayoutError::Empty));
}

#[test]
fn guest_physical_maps_to_a_fixed_displacement_from_ram_base() {
    assert_eq!(linear_offset(PHYS_RAM_BASE, DEFAULT_RAM_BYTES), Some(RAM_BASE));
    assert_eq!(linear_offset(PHYS_RAM_BASE + 0x1234, DEFAULT_RAM_BYTES), Some(RAM_BASE + 0x1234));
}

#[test]
fn addresses_outside_the_ram_window_do_not_translate() {
    // MMIO region on the `virt` machine sits below RAM.
    assert_eq!(linear_offset(0x0900_0000, DEFAULT_RAM_BYTES), None);
    // One byte past the end of configured RAM.
    assert_eq!(linear_offset(PHYS_RAM_BASE + DEFAULT_RAM_BYTES as u64, DEFAULT_RAM_BYTES), None);
}

#[test]
fn the_largest_window_ends_at_four_gibibytes() {
    assert_eq!(reserve(MAX_RAM_BYTES), Ok((RAM_BASE, RAM_BASE + MAX_RAM_BYTES)));
    assert_eq!(RAM_BASE + MAX_RAM_BYTES, 4 << 30);
}

#[test]
fn only_a_threaded_build_blocks_and_only_it_needs_isolation() {
    // Both constants derive from the same build setting, so this holds by
    // construction; the test exists to fail loudly if a later change gives
    // either one an independent definition.
    let does_block = IDLE_STRATEGY == IdleStrategy::BlockOnAtomic;

    assert_eq!(does_block, lib::IS_THREADED_BUILD);
    assert_eq!(REQUIRES_CROSS_ORIGIN_ISOLATION, lib::IS_THREADED_BUILD);
}

#[test]
fn the_idle_strategy_is_one_of_the_two_supported_modes() {
    assert!(matches!(IDLE_STRATEGY, IdleStrategy::BlockOnAtomic | IdleStrategy::YieldToHost));
}

#[test]
fn a_default_register_file_is_the_reset_state() {
    let regs = RegFile::default();
    assert_eq!(regs, RegFile::new());
    assert_eq!(regs.pc(), 0);
    assert_eq!(regs.pstate, Pstate::default());
}

#[test]
fn a_window_larger_than_the_maximum_still_translates_its_low_addresses() {
    let huge = usize::MAX - 0x1000;
    assert_eq!(linear_offset(PHYS_RAM_BASE + 0x10, huge), Some(RAM_BASE + 0x10));
    assert_eq!(linear_offset(PHYS_RAM_BASE - 1, huge), None);
}
