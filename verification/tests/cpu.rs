use lib::decode::INSN_BYTES;
use lib::guest_memory::PHYS_RAM_BASE;
use lib::interp::fetch;
use lib::decode::{Form, Instruction, Op};
use lib::interp::{execute, Cpu, FlatMemory, Flow, Memory, Stop};
use lib::reg::Gpr;
use lib::trap::Trap;

fn cpu_running(program: &[u32]) -> Cpu<FlatMemory> {
    let mut memory = FlatMemory::new(4096);
    for (index, word) in program.iter().enumerate() {
        memory.write_uint(PHYS_RAM_BASE + index as u64 * INSN_BYTES, 4, *word as u64).expect("program fits");
    }
    let mut cpu = Cpu::new(memory);
    cpu.regs.set_pc(PHYS_RAM_BASE);
    cpu
}

#[test]
fn a_straight_line_program_retires_one_instruction_per_step() {
    // add x0, x0, #1  ×3
    let mut cpu = cpu_running(&[0x9100_0400, 0x9100_0400, 0x9100_0400]);

    assert_eq!(cpu.run(3), Stop::BudgetExhausted);

    assert_eq!(cpu.regs.read_x(Gpr::X(0)), 3);
    assert_eq!(cpu.icount(), 3);
    assert_eq!(cpu.regs.pc(), PHYS_RAM_BASE + 12);
}

#[test]
fn an_unimplemented_opcode_traps_and_is_logged_rather_than_panicking() {
    // A NEON encoding no decoder has claimed.
    let mut cpu = cpu_running(&[0x4e20_8400]);

    let stop = cpu.run(16);

    assert_eq!(stop, Stop::Trapped(Trap::UndefinedInstruction { pc: PHYS_RAM_BASE, encoding: 0x4e20_8400 }));
    assert_eq!(cpu.regs.pc(), PHYS_RAM_BASE, "PC stays at the trap");
    assert_eq!(cpu.trap_log.entries().len(), 1);
}

#[test]
fn fetching_outside_mapped_memory_is_an_instruction_abort() {
    let mut cpu = cpu_running(&[]);
    cpu.regs.set_pc(0);

    assert_eq!(cpu.run(1), Stop::Trapped(Trap::InstructionAbort { pc: 0 }));
}

#[test]
fn the_budget_bounds_the_loop_even_when_the_guest_never_traps() {
    // b .  — an infinite loop.
    let mut cpu = cpu_running(&[0x1400_0000]);

    assert_eq!(cpu.run(1000), Stop::BudgetExhausted);

    assert_eq!(cpu.icount(), 1000);
    assert_eq!(cpu.regs.pc(), PHYS_RAM_BASE);
}

#[test]
fn a_trapped_run_resumes_where_it_stopped() {
    // add; <unimplemented>; add
    let mut cpu = cpu_running(&[0x9100_0400, 0x4e20_8400, 0x9100_0400]);

    assert!(matches!(cpu.run(16), Stop::Trapped(_)));
    assert_eq!(cpu.icount(), 1);

    // The host services the trap by stepping over it.
    cpu.regs.set_pc(cpu.regs.pc() + INSN_BYTES);

    assert_eq!(cpu.run(1), Stop::BudgetExhausted);
    assert_eq!(cpu.regs.read_x(Gpr::X(0)), 2);
}

#[test]
fn a_warm_loop_decodes_each_instruction_once() {
    // add x0, x0, #1; b .-4
    let mut cpu = cpu_running(&[0x9100_0400, 0x17ff_ffff]);

    assert_eq!(cpu.run(100), Stop::BudgetExhausted);

    assert_eq!(cpu.decode_count(), 2);
    assert_eq!(cpu.regs.read_x(Gpr::X(0)), 50);
}

#[test]
fn a_flag_setting_subtract_sets_nzcv_and_a_plain_one_does_not() {
    // mov x1 stays 0; subs x0, x1, #1 ; sub x2, x1, #1
    let mut cpu = cpu_running(&[0xf100_0420, 0xd100_0422]);

    assert_eq!(cpu.run(2), Stop::BudgetExhausted);

    assert_eq!(cpu.regs.read_x(Gpr::X(0)), u64::MAX);
    assert_eq!(cpu.regs.read_x(Gpr::X(2)), u64::MAX);
    let flags = cpu.regs.pstate.nzcv;
    assert!(flags.n && !flags.z && !flags.c && !flags.v);
}

#[test]
fn a_32_bit_add_wraps_and_zero_extends() {
    // add w0, w0, #1 with w0 = 0xffff_ffff
    let mut cpu = cpu_running(&[0x1100_0400]);
    cpu.regs.write_x(Gpr::X(0), 0xdead_beef_ffff_ffff);

    assert_eq!(cpu.run(1), Stop::BudgetExhausted);

    assert_eq!(cpu.regs.read_x(Gpr::X(0)), 0);
}

#[test]
fn logical_register_forms_combine_their_operands() {
    // and x0, x1, x2 ; orr x3, x1, x2 ; eor x4, x1, x2
    let mut cpu = cpu_running(&[0x8a02_0020, 0xaa02_0023, 0xca02_0024]);
    cpu.regs.write_x(Gpr::X(1), 0b1100);
    cpu.regs.write_x(Gpr::X(2), 0b1010);

    assert_eq!(cpu.run(3), Stop::BudgetExhausted);

    assert_eq!(cpu.regs.read_x(Gpr::X(0)), 0b1000);
    assert_eq!(cpu.regs.read_x(Gpr::X(3)), 0b1110);
    assert_eq!(cpu.regs.read_x(Gpr::X(4)), 0b0110);
}

#[test]
fn branch_and_link_records_the_return_address_and_ret_uses_it() {
    // bl .+8 ; (skipped) ; ret
    let mut cpu = cpu_running(&[0x9400_0002, 0xd503_201f, 0xd65f_03c0]);

    assert_eq!(cpu.run(1), Stop::BudgetExhausted);
    assert_eq!(cpu.regs.pc(), PHYS_RAM_BASE + 8);
    assert_eq!(cpu.regs.read_x(Gpr::X(30)), PHYS_RAM_BASE + 4);

    assert_eq!(cpu.run(1), Stop::BudgetExhausted);
    assert_eq!(cpu.regs.pc(), PHYS_RAM_BASE + 4);
}

#[test]
fn a_store_then_a_load_moves_a_value_through_memory() {
    // str x1, [x2] ; ldr x3, [x2]
    let mut cpu = cpu_running(&[0xf900_0041, 0xf940_0043]);
    cpu.regs.write_x(Gpr::X(1), 0x1122_3344_5566_7788);
    cpu.regs.write_x(Gpr::X(2), PHYS_RAM_BASE + 0x800);

    assert_eq!(cpu.run(2), Stop::BudgetExhausted);

    assert_eq!(cpu.regs.read_x(Gpr::X(3)), 0x1122_3344_5566_7788);
    assert_eq!(cpu.memory.read_uint(PHYS_RAM_BASE + 0x800, 8), Ok(0x1122_3344_5566_7788));
}

#[test]
fn a_signed_byte_load_sign_extends() {
    // ldrsb x3, [x2]
    let mut cpu = cpu_running(&[0x3980_0043]);
    cpu.regs.write_x(Gpr::X(2), PHYS_RAM_BASE + 0x800);
    cpu.memory.write_uint(PHYS_RAM_BASE + 0x800, 1, 0x80).expect("in range");

    assert_eq!(cpu.run(1), Stop::BudgetExhausted);

    assert_eq!(cpu.regs.read_x(Gpr::X(3)), 0xffff_ffff_ffff_ff80);
}

#[test]
fn a_faulting_load_with_write_back_leaves_the_base_untouched() {
    // ldr x0, [x1], #8  — post-indexed, x1 outside memory
    let mut cpu = cpu_running(&[0xf840_8420]);
    cpu.regs.write_x(Gpr::X(1), 0x10);

    assert_eq!(cpu.run(1), Stop::Trapped(Trap::DataAbort { pc: PHYS_RAM_BASE, address: 0x10, is_write: false }));

    assert_eq!(cpu.regs.read_x(Gpr::X(1)), 0x10);
    assert_eq!(cpu.icount(), 0);
}

#[test]
fn a_post_indexed_store_writes_its_base_back() {
    // str x0, [x1], #8
    let mut cpu = cpu_running(&[0xf800_8420]);
    cpu.regs.write_x(Gpr::X(0), 7);
    cpu.regs.write_x(Gpr::X(1), PHYS_RAM_BASE + 0x100);

    assert_eq!(cpu.run(1), Stop::BudgetExhausted);

    assert_eq!(cpu.regs.read_x(Gpr::X(1)), PHYS_RAM_BASE + 0x108);
    assert_eq!(cpu.memory.read_uint(PHYS_RAM_BASE + 0x100, 8), Ok(7));
}

#[test]
fn svc_and_brk_trap_with_their_immediate() {
    // The decoder does not claim the exception-generation group yet, so the
    // word itself is an undefined instruction...
    let mut cpu = cpu_running(&[0xd400_0841]);
    assert_eq!(cpu.run(4), Stop::Trapped(Trap::UndefinedInstruction { pc: PHYS_RAM_BASE, encoding: 0xd400_0841 }));

    // ...while the dispatch arm traps with the immediate once it is decoded.
    let svc = Instruction::new(0xd400_0841, Op::Svc, Form::Imm { imm: 0x42 });
    assert_eq!(execute(&mut cpu, &svc, PHYS_RAM_BASE), Err(Trap::SupervisorCall { pc: PHYS_RAM_BASE, imm: 0x42 }));
    let brk = Instruction::new(0xd420_0020, Op::Brk, Form::Imm { imm: 1 });
    assert_eq!(execute(&mut cpu, &brk, PHYS_RAM_BASE), Err(Trap::Breakpoint { pc: PHYS_RAM_BASE, imm: 1 }));
    let nop = Instruction::new(0xd503_201f, Op::Nop, Form::NoOperands);
    assert_eq!(execute(&mut cpu, &nop, PHYS_RAM_BASE), Ok(Flow::Next));
}

#[test]
fn the_second_operand_helpers_read_the_register_file() {
    let mut cpu = cpu_running(&[]);
    cpu.regs.write_x(Gpr::X(4), 0x8000_0000);
    assert_eq!(fetch::read_gpr(&cpu.regs, Gpr::X(4), lib::decode::operand::RegWidth::W32), 0x8000_0000);
    assert_eq!(fetch::read_gpr(&cpu.regs, Gpr::ZR, lib::decode::operand::RegWidth::X64), 0);
}
