use lib::guest_memory::{PAGE_SIZE, PHYS_RAM_BASE};
use lib::interp::{Cpu, FlatMemory, Memory};
use lib::reg::Gpr;
use lib::shim::number;
use lib::shim::structs::{
    read_iovec, write_stat, write_timespec, write_utsname, IoVec, MODE_CHARACTER_DEVICE, MODE_REGULAR_FILE,
    UTSNAME_FIELD_BYTES,
};
use lib::shim::{default_layout, ArenaLayout, CapturingHost, Errno, HostIo, MemoryMap, Shim};

#[test]
fn an_error_number_becomes_the_negative_value_musl_expects() {
    assert_eq!(Errno::NoSys.to_return_value(), (-38i64) as u64);
    assert_eq!(Errno::BadFd.to_return_value(), (-9i64) as u64);
}

#[test]
fn the_capturing_host_keeps_the_two_output_streams_apart() {
    let mut host = CapturingHost::new();

    assert_eq!(host.write(1, b"out"), Ok(3));
    assert_eq!(host.write(2, b"err"), Ok(3));

    assert_eq!(host.stdout_text(), "out");
    assert_eq!(host.stderr, b"err");
}

#[test]
fn writing_to_a_descriptor_that_was_never_opened_is_a_bad_descriptor() {
    let mut host = CapturingHost::new();

    assert_eq!(host.write(7, b"x"), Err(Errno::BadFd));
}

#[test]
fn random_bytes_are_not_all_the_same_value() {
    let mut host = CapturingHost::new();

    let buffer = host.random(32);

    assert_eq!(buffer.len(), 32);
    assert!(buffer.iter().any(|&byte| byte != buffer[0]));
}

#[test]
fn the_monotonic_clock_never_goes_backwards() {
    let mut host = CapturingHost::new();

    let first = host.monotonic_nanos();
    let second = host.monotonic_nanos();

    assert!(second > first);
}

#[test]
fn stdout_that_is_not_utf8_reads_as_empty_text() {
    let mut host = CapturingHost::new();
    host.write(1, &[0xff, 0xfe]).expect("stdout is open");

    assert_eq!(host.stdout_text(), "");
    assert_eq!(host.read(0, 16), Ok(Vec::new()));
    assert_eq!(host.read(3, 16), Err(Errno::BadFd));
    assert_eq!(host.open(b"/etc/passwd", 0), Err(Errno::NoEnt));
    assert!(host.is_terminal(2) && !host.is_terminal(3));
}

const LAYOUT: ArenaLayout = ArenaLayout { heap_base: 0x1_0000, heap_limit: 0x2_0000, mmap_base: 0x10_0000, mmap_limit: 0x13_0000 };

#[test]
fn brk_starts_at_the_base_of_its_window_and_moves_where_asked() {
    let mut map = MemoryMap::new(LAYOUT);

    assert_eq!(map.brk(), LAYOUT.heap_base);
    assert_eq!(map.set_brk(LAYOUT.heap_base + 0x1000), LAYOUT.heap_base + 0x1000);
    assert_eq!(map.brk(), LAYOUT.heap_base + 0x1000);
}

#[test]
fn querying_the_break_with_a_low_address_reports_it_without_moving_it() {
    // musl calls brk(0) to learn the current break.
    let mut map = MemoryMap::new(LAYOUT);
    map.set_brk(LAYOUT.heap_base + 0x800);

    assert_eq!(map.set_brk(0), LAYOUT.heap_base + 0x800);
}

#[test]
fn a_break_beyond_the_window_is_refused_by_reporting_the_old_one() {
    let mut map = MemoryMap::new(LAYOUT);

    let result = map.set_brk(LAYOUT.heap_limit + 1);

    assert_eq!(result, LAYOUT.heap_base, "refusal reports the current break");
    assert_eq!(map.brk(), LAYOUT.heap_base);
}

#[test]
fn successive_mappings_do_not_overlap_and_are_page_aligned() {
    let mut map = MemoryMap::new(LAYOUT);

    let first = map.map(1).expect("arena has room");
    let second = map.map(PAGE_SIZE as u64 + 1).expect("arena has room");

    assert_eq!(first % PAGE_SIZE as u64, 0);
    assert_eq!(second, first + PAGE_SIZE as u64);
    assert!(map.map(1).expect("still room") >= second + 2 * PAGE_SIZE as u64);
}

#[test]
fn exhausting_the_arena_is_reported_rather_than_wrapping() {
    let mut map = MemoryMap::new(LAYOUT);
    let arena = LAYOUT.mmap_limit - LAYOUT.mmap_base;

    assert!(map.map(arena).is_some());
    assert_eq!(map.map(1), None);
}

#[test]
fn a_zero_length_mapping_is_rejected() {
    let mut map = MemoryMap::new(LAYOUT);

    assert_eq!(map.map(0), None);
}

#[test]
fn a_mapping_that_would_pass_the_end_of_the_address_space_is_refused() {
    let mut map = MemoryMap::new(LAYOUT);

    assert_eq!(map.map(u64::MAX), None);
    assert_eq!(map.map(1), Some(LAYOUT.mmap_base), "a refusal takes nothing");
}

#[test]
fn a_terminal_stat_reports_a_character_device() {
    let mut memory = FlatMemory::new(4096);

    write_stat(&mut memory, PHYS_RAM_BASE, (true, 0)).expect("in range");

    let mode = memory.read_uint(PHYS_RAM_BASE + 16, 4).expect("in range");
    assert_eq!(mode, MODE_CHARACTER_DEVICE);
}

#[test]
fn a_file_stat_reports_its_size_and_a_regular_file_mode() {
    let mut memory = FlatMemory::new(4096);

    write_stat(&mut memory, PHYS_RAM_BASE, (false, 1234)).expect("in range");

    assert_eq!(memory.read_uint(PHYS_RAM_BASE + 16, 4), Ok(MODE_REGULAR_FILE));
    assert_eq!(memory.read_uint(PHYS_RAM_BASE + 48, 8), Ok(1234));
    assert_eq!(memory.read_uint(PHYS_RAM_BASE + 64, 8), Ok(3), "512-byte blocks");
}

#[test]
fn stat_into_an_unmapped_address_is_a_fault_not_a_panic() {
    let mut memory = FlatMemory::new(4096);

    assert_eq!(write_stat(&mut memory, 0, (true, 0)), Err(Errno::Fault));
}

#[test]
fn utsname_names_an_aarch64_machine_in_the_field_musl_reads() {
    let mut memory = FlatMemory::new(4096);

    write_utsname(&mut memory, PHYS_RAM_BASE).expect("in range");

    let machine_offset = PHYS_RAM_BASE + 4 * UTSNAME_FIELD_BYTES;
    let field = memory.slice(machine_offset, 8).expect("in range");
    assert_eq!(&field[..7], b"aarch64");
    assert_eq!(field[7], 0, "fields are NUL-terminated");
}

#[test]
fn an_iovec_array_is_read_entry_by_entry() {
    let mut memory = FlatMemory::new(4096);
    let array = PHYS_RAM_BASE;
    memory.write_uint(array, 8, 0x1000).expect("in range");
    memory.write_uint(array + 8, 8, 4).expect("in range");
    memory.write_uint(array + 16, 8, 0x2000).expect("in range");
    memory.write_uint(array + 24, 8, 8).expect("in range");

    assert_eq!(read_iovec(&memory, array, 0), Ok(IoVec { base: 0x1000, len: 4 }));
    assert_eq!(read_iovec(&memory, array, 1), Ok(IoVec { base: 0x2000, len: 8 }));
}

#[test]
fn a_timespec_splits_nanoseconds_into_whole_seconds_and_a_remainder() {
    let mut memory = FlatMemory::new(4096);

    write_timespec(&mut memory, PHYS_RAM_BASE, 2_500_000_000).expect("in range");

    assert_eq!(memory.read_uint(PHYS_RAM_BASE, 8), Ok(2));
    assert_eq!(memory.read_uint(PHYS_RAM_BASE + 8, 8), Ok(500_000_000));
}

fn shim_and_cpu() -> (Shim<CapturingHost>, Cpu<FlatMemory>) {
    let memory = FlatMemory::new(0x10000);
    let shim = Shim::new(CapturingHost::new(), default_layout(PHYS_RAM_BASE, 0x10000));
    (shim, Cpu::new(memory))
}

#[test]
fn the_default_layout_puts_the_heap_then_mmap_above_the_program() {
    let layout = default_layout(0x4000_0000, 0x1000);

    assert_eq!(layout, ArenaLayout { heap_base: 0x4000_0400, heap_limit: 0x4000_0800, mmap_base: 0x4000_0800, mmap_limit: 0x4000_1000 });
}

#[test]
fn a_write_syscall_reaches_the_host_and_returns_the_count() {
    let (mut shim, mut cpu) = shim_and_cpu();
    cpu.memory.store_slice(PHYS_RAM_BASE + 0x100, b"hello").expect("in range");
    cpu.regs.write_x(Gpr::X(8), number::WRITE);
    cpu.regs.write_x(Gpr::X(0), 1);
    cpu.regs.write_x(Gpr::X(1), PHYS_RAM_BASE + 0x100);
    cpu.regs.write_x(Gpr::X(2), 5);

    assert_eq!(shim.service(&mut cpu), None);

    assert_eq!(cpu.regs.read_x(Gpr::X(0)), 5);
    assert_eq!(shim.host.stdout_text(), "hello");
}

#[test]
fn writev_gathers_every_entry_and_skips_empty_ones() {
    let (mut shim, mut cpu) = shim_and_cpu();
    let array = PHYS_RAM_BASE + 0x200;
    cpu.memory.store_slice(PHYS_RAM_BASE + 0x100, b"ab").expect("in range");
    cpu.memory.store_slice(PHYS_RAM_BASE + 0x110, b"cd").expect("in range");
    for (index, (base, len)) in [(PHYS_RAM_BASE + 0x100, 2u64), (0, 0), (PHYS_RAM_BASE + 0x110, 2)].iter().enumerate() {
        cpu.memory.write_uint(array + index as u64 * 16, 8, *base).expect("in range");
        cpu.memory.write_uint(array + index as u64 * 16 + 8, 8, *len).expect("in range");
    }
    cpu.regs.write_x(Gpr::X(8), number::WRITEV);
    cpu.regs.write_x(Gpr::X(0), 1);
    cpu.regs.write_x(Gpr::X(1), array);
    cpu.regs.write_x(Gpr::X(2), 3);

    assert_eq!(shim.service(&mut cpu), None);

    assert_eq!(cpu.regs.read_x(Gpr::X(0)), 4);
    assert_eq!(shim.host.stdout_text(), "abcd");
}

#[test]
fn exit_returns_the_status_and_tells_the_host() {
    let (mut shim, mut cpu) = shim_and_cpu();
    cpu.regs.write_x(Gpr::X(8), number::EXIT_GROUP);
    cpu.regs.write_x(Gpr::X(0), 3);

    assert_eq!(shim.service(&mut cpu), Some(3));
    assert_eq!(shim.host.exit_status, Some(3));
}

#[test]
fn an_unknown_syscall_is_enosys_and_is_recorded_once() {
    let (mut shim, mut cpu) = shim_and_cpu();
    for _ in 0..3 {
        cpu.regs.write_x(Gpr::X(8), 999);
        assert_eq!(shim.service(&mut cpu), None);
        assert_eq!(cpu.regs.read_x(Gpr::X(0)), Errno::NoSys.to_return_value());
    }

    assert_eq!(shim.unhandled(), vec![999]);
}

#[test]
fn clone_and_futex_are_refused_by_name_and_not_recorded() {
    let (mut shim, mut cpu) = shim_and_cpu();
    for call in [number::CLONE, number::FUTEX] {
        cpu.regs.write_x(Gpr::X(8), call);
        shim.service(&mut cpu);
        assert_eq!(cpu.regs.read_x(Gpr::X(0)), Errno::NoSys.to_return_value());
    }

    assert!(shim.unhandled().is_empty());
}

#[test]
fn brk_and_mmap_hand_out_memory_from_the_arena() {
    let (mut shim, mut cpu) = shim_and_cpu();
    let layout = default_layout(PHYS_RAM_BASE, 0x10000);

    cpu.regs.write_x(Gpr::X(8), number::BRK);
    cpu.regs.write_x(Gpr::X(0), 0);
    shim.service(&mut cpu);
    assert_eq!(cpu.regs.read_x(Gpr::X(0)), layout.heap_base);

    cpu.regs.write_x(Gpr::X(8), number::MMAP);
    cpu.regs.write_x(Gpr::X(1), 10);
    shim.service(&mut cpu);
    assert_eq!(cpu.regs.read_x(Gpr::X(0)), layout.mmap_base);
}

#[test]
fn uname_and_affinity_write_guest_memory() {
    let (mut shim, mut cpu) = shim_and_cpu();

    cpu.regs.write_x(Gpr::X(8), number::UNAME);
    cpu.regs.write_x(Gpr::X(0), PHYS_RAM_BASE + 0x400);
    shim.service(&mut cpu);
    assert_eq!(cpu.regs.read_x(Gpr::X(0)), 0);
    assert_eq!(cpu.memory.slice(PHYS_RAM_BASE + 0x400, 5), Ok(b"Linux".to_vec()));

    cpu.regs.write_x(Gpr::X(8), number::SCHED_GETAFFINITY);
    cpu.regs.write_x(Gpr::X(1), 8);
    cpu.regs.write_x(Gpr::X(2), PHYS_RAM_BASE + 0x800);
    shim.service(&mut cpu);
    assert_eq!(cpu.regs.read_x(Gpr::X(0)), 8);
    assert_eq!(cpu.memory.read_uint(PHYS_RAM_BASE + 0x800, 8), Ok(1));

    cpu.regs.write_x(Gpr::X(8), number::SCHED_GETAFFINITY);
    cpu.regs.write_x(Gpr::X(1), 4);
    shim.service(&mut cpu);
    assert_eq!(cpu.regs.read_x(Gpr::X(0)), Errno::Inval.to_return_value());
}

#[test]
fn a_run_ends_at_the_first_trap_it_cannot_service() {
    let (mut shim, mut cpu) = shim_and_cpu();
    cpu.memory.write_uint(PHYS_RAM_BASE, 4, 0x9100_0400).expect("in range");
    cpu.memory.write_uint(PHYS_RAM_BASE + 4, 4, 0x4e20_8400).expect("in range");
    cpu.regs.set_pc(PHYS_RAM_BASE);

    let exit = shim.run(&mut cpu, 100);

    assert!(matches!(exit, lib::shim::ShimExit::Trapped(lib::trap::Trap::UndefinedInstruction { .. })));
    assert_eq!(cpu.icount(), 1);
}

#[test]
fn a_default_host_captures_nothing_and_starts_its_clock_at_zero() {
    let mut host = CapturingHost::default();
    assert!(host.stdout.is_empty());
    assert!(host.stderr.is_empty());
    assert_eq!(host.exit_status, None);
    assert_eq!(host.monotonic_nanos(), 1000);
}

#[test]
fn ioctl_answers_zero_for_a_terminal_and_enotty_otherwise() {
    let (mut shim, mut cpu) = shim_and_cpu();
    cpu.regs.write_x(Gpr::X(8), number::IOCTL);
    cpu.regs.write_x(Gpr::X(0), 1);
    shim.service(&mut cpu);
    assert_eq!(cpu.regs.read_x(Gpr::X(0)), 0);

    cpu.regs.write_x(Gpr::X(8), number::IOCTL);
    cpu.regs.write_x(Gpr::X(0), 5);
    shim.service(&mut cpu);
    assert_eq!(cpu.regs.read_x(Gpr::X(0)), Errno::NoTty.to_return_value());
}

#[test]
fn openat_passes_a_readable_path_to_the_host_and_faults_on_an_unmapped_one() {
    let (mut shim, mut cpu) = shim_and_cpu();
    cpu.memory.store_slice(PHYS_RAM_BASE + 0x100, b"/etc/x\0").expect("in range");
    cpu.regs.write_x(Gpr::X(8), number::OPENAT);
    cpu.regs.write_x(Gpr::X(1), PHYS_RAM_BASE + 0x100);
    shim.service(&mut cpu);
    assert_eq!(cpu.regs.read_x(Gpr::X(0)), Errno::NoEnt.to_return_value());

    cpu.regs.write_x(Gpr::X(8), number::OPENAT);
    cpu.regs.write_x(Gpr::X(1), 0x10);
    shim.service(&mut cpu);
    assert_eq!(cpu.regs.read_x(Gpr::X(0)), Errno::Fault.to_return_value());
}

#[test]
fn fstat_of_a_descriptor_the_host_does_not_know_is_a_bad_descriptor() {
    let (mut shim, mut cpu) = shim_and_cpu();
    cpu.regs.write_x(Gpr::X(8), number::FSTAT);
    cpu.regs.write_x(Gpr::X(0), 9);
    cpu.regs.write_x(Gpr::X(1), PHYS_RAM_BASE + 0x400);
    shim.service(&mut cpu);
    assert_eq!(cpu.regs.read_x(Gpr::X(0)), Errno::BadFd.to_return_value());
}

#[test]
fn readv_from_stdin_at_end_of_file_reads_nothing() {
    let (mut shim, mut cpu) = shim_and_cpu();
    let array = PHYS_RAM_BASE + 0x200;
    cpu.memory.write_uint(array, 8, PHYS_RAM_BASE + 0x100).expect("in range");
    cpu.memory.write_uint(array + 8, 8, 4).expect("in range");
    cpu.regs.write_x(Gpr::X(8), number::READV);
    cpu.regs.write_x(Gpr::X(0), 0);
    cpu.regs.write_x(Gpr::X(1), array);
    cpu.regs.write_x(Gpr::X(2), 1);
    shim.service(&mut cpu);
    assert_eq!(cpu.regs.read_x(Gpr::X(0)), 0);

    cpu.regs.write_x(Gpr::X(8), number::READV);
    cpu.regs.write_x(Gpr::X(0), 4);
    shim.service(&mut cpu);
    assert_eq!(cpu.regs.read_x(Gpr::X(0)), Errno::BadFd.to_return_value());
}

#[test]
fn a_run_stops_when_its_budget_is_spent() {
    let (mut shim, mut cpu) = shim_and_cpu();
    for index in 0..8u64 {
        cpu.memory.write_uint(PHYS_RAM_BASE + index * 4, 4, 0x9100_0400).expect("in range");
    }
    cpu.regs.set_pc(PHYS_RAM_BASE);

    let exit = shim.run(&mut cpu, 3);

    assert!(matches!(exit, lib::shim::ShimExit::BudgetExhausted));
    assert_eq!(cpu.icount(), 3);
    assert_eq!(cpu.regs.read_x(Gpr::X(0)), 3);
}
