//! One `match` over [`Op`], and the arms it dispatches to.
//!
//! Every opcode the decoder can produce but this build cannot execute falls
//! through to the undefined-instruction trap; that is the working state, not a
//! gap.
use vstd::prelude::*;
use vstd::arithmetic::power2::{pow2, lemma2_to64};
use super::fetch::{self, effective_address_spec, extended, offset_address, shifted};
use super::flags::{add_with_carry, add_with_carry_spec, logical_flags, logical_flags_spec, FlaggedResult, lemma_subtraction_flags_compare};
use super::memory::{le_bytes, little_endian, AccessFault, Memory};
use super::{Cpu, Flow};
use crate::decode::address::AccessSize;
use crate::decode::operand::RegWidth;
use crate::decode::{Form, Instruction, Op, INSN_BYTES};
use crate::pstate::{Nzcv, Pstate};
use crate::reg::Gpr;
use crate::regfile::{put_gpr, RegFile};
use crate::trace::TraceSink;
use crate::trap::{trap_pc, Trap};

verus! {

/// The destination and first source of an add, subtract or logical operation,
/// for the operand shapes `allows_extended` admits.
pub open spec fn data_operands(form: Form, allows_extended: bool) -> Option<(Gpr, Gpr)> {
    match form {
        Form::RegImm { rd, rn, .. } => Some((rd, rn)),
        Form::RegShifted { rd, rn, .. } => Some((rd, rn)),
        Form::RegExtended { rd, rn, .. } => if allows_extended { Some((rd, rn)) } else { None },
        _ => None,
    }
}

/// The second operand of an add, subtract or logical operation: the
/// immediate, the shifted register, or the extended register.
pub open spec fn second_operand(regs: RegFile, insn: Instruction) -> u64 {
    match insn.form {
        Form::RegImm { imm, .. } => imm,
        Form::RegShifted { rm, .. } => shifted(
            regs.value_of(rm.reg) as int % insn.width.modulus(),
            rm.kind,
            rm.amount as nat,
            insn.width,
        ) as u64,
        Form::RegExtended { rm, .. } => extended(regs.value_of(rm.reg), rm.kind, rm.amount as nat) as u64,
        _ => 0,
    }
}

/// `rn` read at the instruction's width.
pub open spec fn first_operand(regs: RegFile, rn: Gpr, width: RegWidth) -> u64 {
    (regs.value_of(rn) as int % width.modulus()) as u64
}

/// An add or subtract: subtraction adds the inverted operand with a carry in.
pub open spec fn arithmetic_spec(regs: RegFile, insn: Instruction, rn: Gpr) -> FlaggedResult {
    let is_sub = insn.op == Op::Sub;
    let operand = second_operand(regs, insn);
    add_with_carry_spec(first_operand(regs, rn, insn.width), if is_sub { !operand } else { operand }, is_sub, insn.width)
}

/// The value of a bitwise operation.
pub open spec fn logical_spec(regs: RegFile, insn: Instruction, rn: Gpr) -> u64 {
    let left = first_operand(regs, rn, insn.width);
    let operand = second_operand(regs, insn);
    match insn.op {
        Op::And => left & operand,
        Op::Bic => left & !operand,
        Op::Orr => left | operand,
        Op::Orn => left | !operand,
        Op::Eor => left ^ operand,
        _ => left ^ !operand,
    }
}

/// `value` read as a `bits`-bit two's-complement number and widened to 64 bits.
pub open spec fn sign_extended_value(value: u64, bits: nat) -> u64 {
    if bits >= 64 {
        value
    } else {
        let low = value as int % pow2(bits) as int;
        if bits > 0 && low >= pow2((bits - 1) as nat) {
            (low + 0x1_0000_0000_0000_0000 - pow2(bits)) as u64
        } else {
            low as u64
        }
    }
}

/// The register state an instruction leaves: general-purpose storage `gprs`,
/// flags `nzcv`, program counter `pc`, and everything else as `before`.
pub open spec fn state_is(after: RegFile, before: RegFile, gprs: (Seq<u64>, u64), nzcv: Nzcv, pc: u64) -> bool {
    &&& after.gprs() == gprs
    &&& after.pc_value() == pc
    &&& after.pstate == (Pstate { nzcv, ..before.pstate })
    &&& after.vs() == before.vs()
    &&& after.fpcr == before.fpcr
    &&& after.fpsr == before.fpsr
}

/// Whether two memories map the same addresses and hold the same bytes.
pub open spec fn same_contents<M: Memory>(after: M, before: M) -> bool {
    &&& forall|a: u64, n: nat| #[trigger] after.covers(a, n) == before.covers(a, n)
    &&& forall|a: int| #[trigger] after.byte_at(a) == before.byte_at(a)
}

/// Whether `after` is `before` with `bytes` stored from `address`.
pub open spec fn stored_at<M: Memory>(after: M, before: M, address: u64, bytes: Seq<u8>) -> bool {
    &&& forall|a: u64, n: nat| #[trigger] after.covers(a, n) == before.covers(a, n)
    &&& forall|a: int| #[trigger] after.byte_at(a) == (if address <= a < address + bytes.len() {
        bytes[a - address]
    } else {
        before.byte_at(a)
    })
}

/// The general-purpose storage after an access's base write-back, if it owes
/// one.
pub open spec fn written_back(gprs: (Seq<u64>, u64), writeback: Option<(Gpr, u64)>) -> (Seq<u64>, u64) {
    match writeback {
        Some((base, value)) => put_gpr(gprs, base, value),
        None => gprs,
    }
}

/// What executing `insn`, fetched from `pc`, does: from registers `before` and
/// memory `memory` it reaches registers `after` and memory `memory_after` with
/// outcome `r`. An instruction that falls through leaves the program counter
/// at `next_pc`; one that traps changes nothing.
///
/// - `ADD`/`SUB` (immediate, shifted or extended register) write the sum at the
///   operand width and, when flag-setting, its NZCV.
/// - The six bitwise opcodes (immediate or shifted register) write the result
///   and, when flag-setting, `N` and `Z` with `C` and `V` clear.
/// - `B`/`BL` jump `offset` bytes from `pc`; `BL` links `pc + 4` in `x30`.
/// - `BR`/`BLR`/`RET` jump to the register's value; `BLR` links.
/// - `LDR`/`STR` (single register) move `size.bytes` little-endian bytes at the
///   effective address, a load widening by sign or by zero, and apply the
///   base write-back only when the access succeeds; an access outside memory
///   is a data abort.
/// - `SVC` and `BRK` trap with their immediate; `NOP` does nothing.
/// - Every other opcode, or an operand shape an opcode does not take, is an
///   undefined instruction.
pub open spec fn executed<M: Memory>(
    before: RegFile,
    after: RegFile,
    memory: M,
    memory_after: M,
    insn: Instruction,
    pc: u64,
    next_pc: u64,
    r: Result<Flow, Trap>,
) -> bool {
    let width = insn.width;
    let unchanged = after == before && memory_after == memory;
    let undefined_here = Trap::UndefinedInstruction { pc, encoding: insn.encoding };
    let undefined_at_pc = Trap::UndefinedInstruction { pc: before.pc_value(), encoding: insn.encoding };
    let linked = put_gpr(before.gprs(), Gpr::X(30), offset_address(pc, INSN_BYTES as int));
    match insn.op {
        Op::Add | Op::Sub => match data_operands(insn.form, true) {
            Some((rd, rn)) => {
                let result = arithmetic_spec(before, insn, rn);
                &&& r == Ok::<Flow, Trap>(Flow::Next)
                &&& memory_after == memory
                &&& state_is(
                    after,
                    before,
                    put_gpr(before.gprs(), rd, (result.value as int % width.modulus()) as u64),
                    if insn.sets_flags { result.flags } else { before.pstate.nzcv },
                    next_pc,
                )
            },
            None => r == Err::<Flow, Trap>(undefined_at_pc) && unchanged,
        },
        Op::And | Op::Orr | Op::Eor | Op::Bic | Op::Orn | Op::Eon => match data_operands(insn.form, false) {
            Some((rd, rn)) => {
                let value = logical_spec(before, insn, rn);
                &&& r == Ok::<Flow, Trap>(Flow::Next)
                &&& memory_after == memory
                &&& state_is(
                    after,
                    before,
                    put_gpr(before.gprs(), rd, (value as int % width.modulus()) as u64),
                    if insn.sets_flags { logical_flags_spec(value, width) } else { before.pstate.nzcv },
                    next_pc,
                )
            },
            None => r == Err::<Flow, Trap>(undefined_at_pc) && unchanged,
        },
        Op::B | Op::Bl => match insn.form {
            Form::Branch { offset } => {
                &&& r == Ok::<Flow, Trap>(Flow::Branched)
                &&& memory_after == memory
                &&& state_is(
                    after,
                    before,
                    if insn.op == Op::Bl { linked } else { before.gprs() },
                    before.pstate.nzcv,
                    offset_address(pc, offset as int),
                )
            },
            _ => r == Err::<Flow, Trap>(undefined_here) && unchanged,
        },
        Op::Br | Op::Blr | Op::Ret => match insn.form {
            Form::BranchIndirect { rn } => {
                &&& r == Ok::<Flow, Trap>(Flow::Branched)
                &&& memory_after == memory
                &&& state_is(
                    after,
                    before,
                    if insn.op == Op::Blr { linked } else { before.gprs() },
                    before.pstate.nzcv,
                    before.value_of(rn),
                )
            },
            _ => r == Err::<Flow, Trap>(undefined_here) && unchanged,
        },
        Op::Nop => r == Ok::<Flow, Trap>(Flow::Next) && memory_after == memory
            && state_is(after, before, before.gprs(), before.pstate.nzcv, next_pc),
        Op::Ldr | Op::Str => match insn.form {
            Form::LoadStore { rt, rt2: None, addr, size, .. } => {
                let computed = effective_address_spec(before, addr, pc);
                let address = computed.address;
                let count = size.bytes as nat;
                let is_write = insn.op == Op::Str;
                let covered = memory.covers(address, count);
                if !covered {
                    &&& r == Err::<Flow, Trap>(Trap::DataAbort { pc, address, is_write })
                    &&& after == before
                    &&& same_contents(memory_after, memory)
                } else if is_write {
                    let value = first_operand(before, rt, width);
                    &&& r == Ok::<Flow, Trap>(Flow::Next)
                    &&& stored_at(memory_after, memory, address, le_bytes(value as nat, count))
                    &&& state_is(after, before, written_back(before.gprs(), computed.writeback), before.pstate.nzcv, next_pc)
                } else {
                    let raw = little_endian(Seq::new(count, |i: int| memory.byte_at(address + i))) as u64;
                    let value = if size.is_signed { sign_extended_value(raw, count * 8) } else { raw };
                    let loaded = put_gpr(before.gprs(), rt, (value as int % width.modulus()) as u64);
                    &&& r == Ok::<Flow, Trap>(Flow::Next)
                    &&& memory_after == memory
                    &&& state_is(after, before, written_back(loaded, computed.writeback), before.pstate.nzcv, next_pc)
                }
            },
            _ => r == Err::<Flow, Trap>(undefined_here) && unchanged,
        },
        Op::Svc => unchanged && r == Err::<Flow, Trap>(match insn.form {
            Form::Imm { imm } => Trap::SupervisorCall { pc, imm: (imm % 0x1_0000) as u16 },
            _ => undefined_here,
        }),
        Op::Brk => unchanged && r == Err::<Flow, Trap>(match insn.form {
            Form::Imm { imm } => Trap::Breakpoint { pc, imm: (imm % 0x1_0000) as u16 },
            _ => undefined_here,
        }),
        _ => r == Err::<Flow, Trap>(undefined_here) && unchanged,
    }
}

/// A trap changes no register and no byte of memory, and names the PC of the
/// instruction that raised it.
pub proof fn lemma_trap_changes_nothing<M: Memory>(
    before: RegFile,
    after: RegFile,
    memory: M,
    memory_after: M,
    insn: Instruction,
    pc: u64,
    next_pc: u64,
    trap: Trap,
)
    requires
        executed(before, after, memory, memory_after, insn, pc, next_pc, Err(trap)),
        before.pc_value() == pc,
    ensures
        after == before,
        same_contents(memory_after, memory),
        trap_pc(trap) == pc,
{
}

/// Where an instruction falls through to is all `next_pc` decides: moving the
/// program counter of a fall-through outcome, and nothing else, from one
/// `next_pc` to another keeps the description.
pub proof fn lemma_fall_through_target<M: Memory>(
    before: RegFile,
    mid: RegFile,
    after: RegFile,
    memory: M,
    memory_after: M,
    insn: Instruction,
    pc: u64,
    outcome: Result<Flow, Trap>,
)
    requires
        executed(before, mid, memory, memory_after, insn, pc, before.pc_value(), outcome),
        outcome == Ok::<Flow, Trap>(Flow::Next) ==> after.pc_value() == offset_address(pc, INSN_BYTES as int)
            && after.same_but_pc(mid),
        outcome != Ok::<Flow, Trap>(Flow::Next) ==> after == mid,
    ensures
        executed(before, after, memory, memory_after, insn, pc, offset_address(pc, INSN_BYTES as int), outcome),
{
}

/// A signed load keeps the loaded value: for a raw value of `bits` bits,
/// fewer than 64, the sign-extended register, read as a signed 64-bit
/// number, is the raw value read as a signed `bits`-bit number.
pub proof fn lemma_sign_extension_keeps_value(raw: u64, bits: nat)
    requires
        0 < bits < 64,
        raw < pow2(bits),
    ensures
        ({
            let wide = sign_extended_value(raw, bits) as int;
            let wide_signed = if wide >= 0x8000_0000_0000_0000 { wide - 0x1_0000_0000_0000_0000 } else { wide };
            let narrow_signed = if raw >= pow2((bits - 1) as nat) { raw - pow2(bits) } else { raw as int };
            wide_signed == narrow_signed
        }),
{
    lemma2_to64();
    vstd::arithmetic::power2::lemma2_to64_rest();
    vstd::arithmetic::power2::lemma_pow2_unfold(bits);
    vstd::arithmetic::power2::lemma_pow2_pos((bits - 1) as nat);
    if bits < 63 {
        vstd::arithmetic::power2::lemma_pow2_strictly_increases(bits, 63);
    }
    vstd::arithmetic::div_mod::lemma_small_mod(raw as nat, pow2(bits));
}

/// `ADD` and `SUB` (immediate) compute what their names say: the
/// destination, unless it is the zero register, receives the first source
/// read at the operand width plus, or minus, the immediate, modulo the width;
/// execution falls through, every other general register keeps its value,
/// and memory is untouched.
pub proof fn lemma_add_sub_immediate_result<M: Memory>(
    before: RegFile,
    after: RegFile,
    memory: M,
    memory_after: M,
    insn: Instruction,
    pc: u64,
    next_pc: u64,
    r: Result<Flow, Trap>,
    rd: Gpr,
    rn: Gpr,
    imm: u64,
    other: Gpr,
)
    requires
        executed(before, after, memory, memory_after, insn, pc, next_pc, r),
        insn.op == Op::Add || insn.op == Op::Sub,
        insn.form == (Form::RegImm { rd, rn, imm }),
        rd.is_valid(),
        !(rd is ZR),
        other.is_valid(),
        other != rd,
    ensures
        ({
            let m = insn.width.modulus();
            let left = before.value_of(rn) as int % m;
            let right = imm as int % m;
            &&& r == Ok::<Flow, Trap>(Flow::Next)
            &&& after.value_of(rd) == (if insn.op == Op::Add { (left + right) % m } else { (left - right) % m })
            &&& after.value_of(other) == before.value_of(other)
            &&& after.pc_value() == next_pc
            &&& memory_after == memory
        }),
{
    let width = insn.width;
    let m = width.modulus();
    let left_value = first_operand(before, rn, width);
    assert(left_value as int == before.value_of(rn) as int % m);
    assert(second_operand(before, insn) == imm);
    if insn.op == Op::Sub {
        lemma_subtraction_flags_compare(left_value, imm, width);
        assert(left_value as int % m == left_value as int) by {
            vstd::arithmetic::div_mod::lemma_small_mod(left_value as nat, m as nat);
        }
    } else {
        assert(left_value as int % m == left_value as int) by {
            vstd::arithmetic::div_mod::lemma_small_mod(left_value as nat, m as nat);
        }
    }
    let result = arithmetic_spec(before, insn, rn);
    assert(0 <= result.value < m);
    assert((result.value as int % m) == result.value) by {
        vstd::arithmetic::div_mod::lemma_small_mod(result.value as nat, m as nat);
    }
    before.lemma_shape();
    after.lemma_shape();
}

/// Executes one decoded instruction.
///
/// `pc` is the instruction's own address, which the PC-relative and branch arms
/// need and which the register file no longer holds once an arm writes to it.
/// An instruction that falls through leaves the program counter alone: the
/// caller advances it.
pub fn execute<M: Memory, S: TraceSink>(cpu: &mut Cpu<M, S>, insn: &Instruction, pc: u64) -> (r: Result<Flow, Trap>)
    requires
        insn.operands_valid(),
    ensures
        executed(old(cpu).registers(), final(cpu).registers(), old(cpu).guest_memory(), final(cpu).guest_memory(), *insn, pc, old(cpu).registers().pc_value(), r),
        final(cpu).same_apart_from_machine(*old(cpu)),
{
    match insn.op {
        Op::Add | Op::Sub => arithmetic(cpu, insn),
        Op::And | Op::Orr | Op::Eor | Op::Bic | Op::Orn | Op::Eon => logical(cpu, insn),
        Op::B | Op::Bl => branch_immediate(cpu, insn, pc),
        Op::Br | Op::Blr | Op::Ret => branch_register(cpu, insn, pc),
        Op::Nop => Ok(Flow::Next),
        Op::Ldr | Op::Str => load_store(cpu, insn, pc),
        Op::Svc => Err(supervisor_call(insn, pc)),
        Op::Brk => Err(breakpoint(insn, pc)),
        _ => Err(Trap::undefined(pc, insn)),
    }
}

/// `ADD`, `SUB` and their flag-setting forms, across every operand shape.
///
/// One arm for all three shapes because they differ only in how the second
/// operand is produced; the datapath after that is identical.
fn arithmetic<M: Memory, S: TraceSink>(cpu: &mut Cpu<M, S>, insn: &Instruction) -> (r: Result<Flow, Trap>)
    requires
        insn.operands_valid(),
        insn.op is Add || insn.op is Sub,
    ensures
        executed(old(cpu).registers(), final(cpu).registers(), old(cpu).guest_memory(), final(cpu).guest_memory(), *insn, 0, old(cpu).registers().pc_value(), r),
        final(cpu).same_apart_from_machine(*old(cpu)),
{
    let width = insn.width;
    let (rd, rn, operand) = match insn.form {
        Form::RegImm { rd, rn, imm } => (rd, rn, imm),
        Form::RegShifted { rd, rn, rm } => (rd, rn, fetch::read_shifted(&cpu.regs, rm, width)),
        Form::RegExtended { rd, rn, rm } => (rd, rn, fetch::read_extended(&cpu.regs, rm)),
        _ => return Err(Trap::undefined(cpu.regs.pc(), insn)),
    };
    assert(operand == second_operand(cpu.regs, *insn));

    let left = fetch::read_gpr(&cpu.regs, rn, width);
    let is_sub = insn.op == Op::Sub;
    let right = if is_sub { !operand } else { operand };
    let result = add_with_carry((left, right), is_sub, width);

    write_result(cpu, rd, result.value, width);
    if insn.sets_flags {
        cpu.regs.pstate.nzcv = result.flags;
    }
    Ok(Flow::Next)
}

/// The six bitwise opcodes, immediate and shifted-register forms.
fn logical<M: Memory, S: TraceSink>(cpu: &mut Cpu<M, S>, insn: &Instruction) -> (r: Result<Flow, Trap>)
    requires
        insn.operands_valid(),
        insn.op is And || insn.op is Orr || insn.op is Eor || insn.op is Bic || insn.op is Orn || insn.op is Eon,
    ensures
        executed(old(cpu).registers(), final(cpu).registers(), old(cpu).guest_memory(), final(cpu).guest_memory(), *insn, 0, old(cpu).registers().pc_value(), r),
        final(cpu).same_apart_from_machine(*old(cpu)),
{
    let width = insn.width;
    let (rd, rn, operand) = match insn.form {
        Form::RegImm { rd, rn, imm } => (rd, rn, imm),
        Form::RegShifted { rd, rn, rm } => (rd, rn, fetch::read_shifted(&cpu.regs, rm, width)),
        _ => return Err(Trap::undefined(cpu.regs.pc(), insn)),
    };
    assert(operand == second_operand(cpu.regs, *insn));

    let left = fetch::read_gpr(&cpu.regs, rn, width);
    let value = match insn.op {
        Op::And => left & operand,
        Op::Bic => left & !operand,
        Op::Orr => left | operand,
        Op::Orn => left | !operand,
        Op::Eor => left ^ operand,
        _ => left ^ !operand,
    };

    write_result(cpu, rd, value, width);
    if insn.sets_flags {
        cpu.regs.pstate.nzcv = logical_flags(value, width);
    }
    Ok(Flow::Next)
}

/// `B` and `BL`.
fn branch_immediate<M: Memory, S: TraceSink>(cpu: &mut Cpu<M, S>, insn: &Instruction, pc: u64) -> (r: Result<Flow, Trap>)
    requires
        insn.op is B || insn.op is Bl,
    ensures
        executed(old(cpu).registers(), final(cpu).registers(), old(cpu).guest_memory(), final(cpu).guest_memory(), *insn, pc, old(cpu).registers().pc_value(), r),
        final(cpu).same_apart_from_machine(*old(cpu)),
{
    let offset = match insn.form {
        Form::Branch { offset } => offset,
        _ => return Err(Trap::undefined(pc, insn)),
    };

    if insn.op == Op::Bl {
        cpu.regs.write_x(Gpr::X(30), pc.wrapping_add(INSN_BYTES));
    }
    cpu.regs.set_pc(pc.wrapping_add(offset as u64));
    proof { lemma_wrapping_add_offset(pc, offset); }
    Ok(Flow::Branched)
}

/// `BR`, `BLR` and `RET`.
fn branch_register<M: Memory, S: TraceSink>(cpu: &mut Cpu<M, S>, insn: &Instruction, pc: u64) -> (r: Result<Flow, Trap>)
    requires
        insn.operands_valid(),
        insn.op is Br || insn.op is Blr || insn.op is Ret,
    ensures
        executed(old(cpu).registers(), final(cpu).registers(), old(cpu).guest_memory(), final(cpu).guest_memory(), *insn, pc, old(cpu).registers().pc_value(), r),
        final(cpu).same_apart_from_machine(*old(cpu)),
{
    let rn = match insn.form {
        Form::BranchIndirect { rn } => rn,
        _ => return Err(Trap::undefined(pc, insn)),
    };

    let target = cpu.regs.read_x(rn);
    if insn.op == Op::Blr {
        cpu.regs.write_x(Gpr::X(30), pc.wrapping_add(INSN_BYTES));
    }
    cpu.regs.set_pc(target);
    Ok(Flow::Branched)
}

/// `pc` moved by a signed `offset`, wrapping: what adding the offset's bit
/// pattern does.
proof fn lemma_wrapping_add_offset(pc: u64, offset: i64)
    ensures
        ((pc as int + (offset as u64) as int) % 0x1_0000_0000_0000_0000) as u64 == offset_address(pc, offset as int),
{
    assert(((pc as int + (offset as u64) as int) % 0x1_0000_0000_0000_0000) as u64
        == ((pc as int + offset as int) % 0x1_0000_0000_0000_0000) as u64) by (bit_vector);
}

/// `LDR` and `STR`, single-register forms.
///
/// Write-back is applied only after the access succeeds: a faulting access
/// must leave the base register as the guest left it.
fn load_store<M: Memory, S: TraceSink>(cpu: &mut Cpu<M, S>, insn: &Instruction, pc: u64) -> (r: Result<Flow, Trap>)
    requires
        insn.operands_valid(),
        insn.op is Ldr || insn.op is Str,
    ensures
        executed(old(cpu).registers(), final(cpu).registers(), old(cpu).guest_memory(), final(cpu).guest_memory(), *insn, pc, old(cpu).registers().pc_value(), r),
        final(cpu).same_apart_from_machine(*old(cpu)),
{
    let (rt, addr, size) = match insn.form {
        Form::LoadStore { rt, rt2: None, addr, size, .. } => (rt, addr, size),
        _ => return Err(Trap::undefined(pc, insn)),
    };

    let computed = fetch::effective_address(&cpu.regs, addr, pc);
    let is_write = insn.op == Op::Str;
    match transfer(cpu, (rt, computed.address, is_write), insn, size) {
        Ok(()) => {},
        Err(_) => return Err(data_abort(pc, computed.address, is_write)),
    }

    if let Some((base, value)) = computed.writeback {
        cpu.regs.write_x(base, value);
    }
    Ok(Flow::Next)
}

/// Moves one register's worth of data in the named direction.
fn transfer<M: Memory, S: TraceSink>(
    cpu: &mut Cpu<M, S>,
    access: (Gpr, u64, bool),
    insn: &Instruction,
    size: AccessSize,
) -> (r: Result<(), AccessFault>)
    requires
        access.0.is_valid(),
        1 <= size.bytes <= 8,
    ensures
        r is Ok <==> old(cpu).guest_memory().covers(access.1, size.bytes as nat),
        final(cpu).same_apart_from_machine(*old(cpu)),
        r is Err ==> final(cpu).registers() == old(cpu).registers() && same_contents(final(cpu).guest_memory(), old(cpu).guest_memory()),
        r is Ok && access.2 ==> {
            &&& final(cpu).registers() == old(cpu).registers()
            &&& stored_at(
                final(cpu).guest_memory(),
                old(cpu).guest_memory(),
                access.1,
                le_bytes(first_operand(old(cpu).registers(), access.0, insn.width) as nat, size.bytes as nat),
            )
        },
        r is Ok && !access.2 ==> {
            let raw = little_endian(Seq::new(size.bytes as nat, |i: int| old(cpu).guest_memory().byte_at(access.1 + i))) as u64;
            let value = if size.is_signed { sign_extended_value(raw, size.bytes as nat * 8) } else { raw };
            &&& final(cpu).guest_memory() == old(cpu).guest_memory()
            &&& final(cpu).registers().written(old(cpu).registers(), access.0, (value as int % insn.width.modulus()) as u64)
        },
{
    let (rt, address, is_write) = access;
    if is_write {
        let value = fetch::read_gpr(&cpu.regs, rt, insn.width);
        proof { super::memory::lemma_le_bytes_round_trip(value as nat, size.bytes as nat); }
        return cpu.memory.write_uint(address, size.bytes, value);
    }

    let raw = match cpu.memory.read_uint(address, size.bytes) {
        Ok(raw) => raw,
        Err(fault) => return Err(fault),
    };
    let value = if size.is_signed {
        sign_extend(raw, size.bytes as u32 * 8)
    } else {
        raw
    };
    write_result(cpu, rt, value, insn.width);
    Ok(())
}

/// `SVC` — the shim's entry point.
fn supervisor_call(insn: &Instruction, pc: u64) -> (r: Trap)
    ensures
        r == (match insn.form {
            Form::Imm { imm } => Trap::SupervisorCall { pc, imm: (imm % 0x1_0000) as u16 },
            _ => Trap::UndefinedInstruction { pc, encoding: insn.encoding },
        }),
{
    match insn.form {
        Form::Imm { imm } => Trap::SupervisorCall { pc, imm: (imm % 0x1_0000) as u16 },
        _ => Trap::undefined(pc, insn),
    }
}

/// `BRK`.
fn breakpoint(insn: &Instruction, pc: u64) -> (r: Trap)
    ensures
        r == (match insn.form {
            Form::Imm { imm } => Trap::Breakpoint { pc, imm: (imm % 0x1_0000) as u16 },
            _ => Trap::UndefinedInstruction { pc, encoding: insn.encoding },
        }),
{
    match insn.form {
        Form::Imm { imm } => Trap::Breakpoint { pc, imm: (imm % 0x1_0000) as u16 },
        _ => Trap::undefined(pc, insn),
    }
}

/// Writes a result at the instruction's operand width.
///
/// A `W`-form write zero-extends; this exists so the width decision is made in
/// one place rather than in each arm.
fn write_result<M: Memory, S: TraceSink>(cpu: &mut Cpu<M, S>, rd: Gpr, value: u64, width: RegWidth)
    requires
        rd.is_valid(),
    ensures
        final(cpu).registers().written(old(cpu).registers(), rd, (value as int % width.modulus()) as u64),
        final(cpu).guest_memory() == old(cpu).guest_memory(),
        final(cpu).same_apart_from_machine(*old(cpu)),
{
    match width {
        RegWidth::W32 => cpu.regs.write_w(rd, (value % 0x1_0000_0000) as u32),
        RegWidth::X64 => cpu.regs.write_x(rd, value),
    }
}

/// The trap a failed access raises.
fn data_abort(pc: u64, address: u64, is_write: bool) -> (r: Trap)
    ensures
        r == (Trap::DataAbort { pc, address, is_write }),
{
    Trap::DataAbort { pc, address, is_write }
}

/// `value` read as a `bits`-bit two's-complement number, widened to 64 bits.
fn sign_extend(value: u64, bits: u32) -> (r: u64)
    requires
        1 <= bits <= 64,
    ensures
        r == sign_extended_value(value, bits as nat),
{
    if bits >= 64 {
        return value;
    }
    let range = fetch::power_of_two(bits);
    let half = fetch::power_of_two(bits - 1);
    proof { lemma2_to64(); }
    let low = value as u128 % range;
    if low >= half {
        (low + 0x1_0000_0000_0000_0000 - range) as u64
    } else {
        low as u64
    }
}

} // verus!
