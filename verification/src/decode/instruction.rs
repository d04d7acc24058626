//! The decoded-instruction model.
//!
//! Two axes, deliberately kept orthogonal:
//!
//! - [`Op`] names *what* the instruction computes. It is flat and cheap to
//!   match on; the interpreter's dispatch is a jump table over it.
//! - [`Form`] names *where the operands are*. There are far fewer operand
//!   shapes than mnemonics, because A64 reuses the same shapes across whole
//!   encoding groups.
//!
//! Splitting the two lets `ADD`, `SUB`, `AND` and `ORR` share a single
//! [`Form::RegShifted`] arm for operand fetch and differ only in the [`Op`]
//! they dispatch on. [`Form`] is `Copy` and fixed-size, so a whole
//! [`Instruction`] fits in a decoded-instruction cache entry without an
//! allocation.
use vstd::prelude::*;
use super::address::{AccessSize, AddrMode, MemoryOrdering};
use super::op::Op;
use super::operand::{Cond, ExtendedReg, RegWidth, RoundMode, ShiftedReg, VecOperand};
use crate::reg::{Gpr, Vec};

verus! {

/// A fully decoded A64 instruction.
#[derive(Debug, Clone, Copy, PartialEq, Eq, Structural)]
pub struct Instruction {
    /// What the instruction computes.
    pub op: Op,
    /// Where its operands are.
    pub form: Form,
    /// Integer operand width. Meaningless for most SIMD/FP forms, which carry
    /// their width in [`VecOperand::shape`]; it is [`RegWidth::X64`] there.
    pub width: RegWidth,
    /// Whether the instruction updates NZCV.
    ///
    /// A field rather than separate `Adds`/`Add` opcodes: the flag-setting and
    /// non-flag-setting encodings are the same computation, and the `S` bit is
    /// literally one bit of the encoding.
    pub sets_flags: bool,
    /// Rounding the encoding names, for the FP forms that carry one.
    pub round: RoundMode,
    /// The 32-bit encoding this was decoded from.
    ///
    /// Kept so an unimplemented-opcode trap and the coverage report can name
    /// the exact word without re-reading guest memory.
    pub encoding: u32,
}

impl Instruction {
    /// Builds an instruction with the common defaults: 64-bit operands, no flag
    /// update, and the rounding FPCR selects.
    #[verifier::allow_in_spec]
    pub fn new(encoding: u32, op: Op, form: Form) -> (r: Instruction)
        returns
            (Instruction {
                op,
                form,
                width: RegWidth::X64,
                sets_flags: false,
                round: RoundMode::Current,
                encoding,
            }),
    {
        Instruction {
            op,
            form,
            width: RegWidth::X64,
            sets_flags: false,
            round: RoundMode::Current,
            encoding,
        }
    }

    /// Sets the integer operand width, leaving everything else alone.
    #[verifier::allow_in_spec]
    pub fn with_width(self, width: RegWidth) -> (r: Instruction)
        returns
            (Instruction { width, ..self }),
    {
        Instruction { width, ..self }
    }

    /// Marks the instruction as updating NZCV, leaving everything else alone.
    #[verifier::allow_in_spec]
    pub fn setting_flags(self) -> (r: Instruction)
        returns
            (Instruction { sets_flags: true, ..self }),
    {
        Instruction { sets_flags: true, ..self }
    }

    /// Sets the rounding the encoding names, leaving everything else alone.
    #[verifier::allow_in_spec]
    pub fn with_round(self, round: RoundMode) -> (r: Instruction)
        returns
            (Instruction { round, ..self }),
    {
        Instruction { round, ..self }
    }
}

/// Operand shapes. One variant per distinct operand layout in A64, not per
/// mnemonic.
#[derive(Debug, Clone, Copy, PartialEq, Eq, Structural)]
pub enum Form {
    /// No operands: `NOP`, `WFI`, `ERET`, and every unallocated encoding.
    NoOperands,
    /// `Rd, Rn, #imm` — data processing (immediate).
    ///
    /// The immediate is fully resolved: the `shift` field of add/sub-immediate
    /// is expanded here, so no consumer re-applies it.
    RegImm {
        /// Destination.
        rd: Gpr,
        /// First source.
        rn: Gpr,
        /// Resolved immediate.
        imm: u64,
    },
    /// `Rd, Rn, Rm{, shift #amount}` — data processing (register).
    RegShifted {
        /// Destination.
        rd: Gpr,
        /// First source.
        rn: Gpr,
        /// Second source with its shift.
        rm: ShiftedReg,
    },
    /// `Rd, Rn, Rm{, extend #amount}` — add/sub (extended register).
    RegExtended {
        /// Destination.
        rd: Gpr,
        /// First source.
        rn: Gpr,
        /// Second source with its extension.
        rm: ExtendedReg,
    },
    /// `Rd, Rn, Rm, Ra` — three-source: `MADD`, `MSUB`, `SMADDL`, `UMULH`.
    ThreeSource {
        /// Destination.
        rd: Gpr,
        /// First multiplicand.
        rn: Gpr,
        /// Second multiplicand.
        rm: Gpr,
        /// Addend.
        ra: Gpr,
    },
    /// `Rd, Rn{, Rm}, #immr, #imms` — bitfield and extract.
    Bitfield {
        /// Destination.
        rd: Gpr,
        /// Source.
        rn: Gpr,
        /// Second source; equals `rn` for the `EXTR` alias `ROR`.
        rm: Gpr,
        /// Rotate / LSB field.
        immr: u8,
        /// Width / MSB field.
        imms: u8,
    },
    /// `Rd, Rn, Rm, cond` — conditional select and `CCMP` register form.
    CondSelect {
        /// Destination.
        rd: Gpr,
        /// Value when the condition holds.
        rn: Gpr,
        /// Value when it does not.
        rm: Gpr,
        /// Condition tested.
        cond: Cond,
    },
    /// `Rn, #imm, #nzcv, cond` — conditional compare (immediate).
    CondCompare {
        /// Compared register.
        rn: Gpr,
        /// Compared immediate.
        imm: u64,
        /// NZCV substituted when the condition fails.
        nzcv: u8,
        /// Condition tested.
        cond: Cond,
    },
    /// `#offset` — unconditional branch and `BL`, relative to this
    /// instruction.
    Branch {
        /// Byte offset from the instruction's own address.
        offset: i64,
    },
    /// `#offset` with a condition — `B.cond`.
    BranchCond {
        /// Byte offset from the instruction's own address.
        offset: i64,
        /// Condition tested.
        cond: Cond,
    },
    /// `Rt, #offset` — compare-and-branch and test-and-branch.
    BranchReg {
        /// Register tested.
        rt: Gpr,
        /// Byte offset from the instruction's own address.
        offset: i64,
        /// Bit position tested by `TBZ`/`TBNZ`; zero for `CBZ`/`CBNZ`.
        bit: u8,
    },
    /// `Rn` — indirect branch: `BR`, `BLR`, `RET`.
    BranchIndirect {
        /// Branch target register.
        rn: Gpr,
    },
    /// `Rt{, Rt2}, addr` — general-purpose load or store, single or pair, and
    /// the exclusive forms with their status register.
    LoadStore {
        /// First transferred register.
        rt: Gpr,
        /// Second transferred register, for the pair forms.
        rt2: Option<Gpr>,
        /// Status register, for the exclusive stores.
        rs: Option<Gpr>,
        /// Address computation.
        addr: AddrMode,
        /// Access width and sign-extension of each register.
        size: AccessSize,
        /// Ordering and exclusivity.
        ordering: MemoryOrdering,
    },
    /// `prfop, addr` — a prefetch, which transfers nothing.
    Prefetch {
        /// The prefetch operation field.
        prfop: u8,
        /// Address computation.
        addr: AddrMode,
    },
    /// `Vt{, ...}, addr` — SIMD/FP load or store of `count` consecutive
    /// registers starting at `vt`.
    LoadStoreVec {
        /// First transferred SIMD/FP register and its shape.
        vt: VecOperand,
        /// Number of consecutive registers transferred.
        count: u8,
        /// Address computation.
        addr: AddrMode,
        /// Ordering and exclusivity.
        ordering: MemoryOrdering,
    },
    /// `Vd, Vn{, Vm{, Va}}` — SIMD/FP data processing, one to three sources.
    VecData {
        /// Destination.
        vd: VecOperand,
        /// First source.
        vn: VecOperand,
        /// Second source, where the encoding has one.
        vm: Option<VecOperand>,
        /// Third source, for `FMADD` and friends.
        va: Option<VecOperand>,
    },
    /// `Vd, Vn, #imm` — SIMD/FP with an immediate: `FMOV`, `MOVI`, shifts by
    /// immediate.
    VecImm {
        /// Destination.
        vd: VecOperand,
        /// Source; equals `vd` for the `MOVI` family, which has no source.
        vn: VecOperand,
        /// Resolved immediate, expanded from the encoding.
        imm: u64,
    },
    /// `Vd, Vn, Vm, cond` — `FCSEL`.
    VecCond {
        /// Destination.
        vd: VecOperand,
        /// Value when the condition holds.
        vn: VecOperand,
        /// Value when it does not.
        vm: VecOperand,
        /// Condition tested.
        cond: Cond,
    },
    /// `Vn, Vm, #nzcv, cond` — `FCCMP`.
    VecCondCompare {
        /// First compared operand.
        vn: VecOperand,
        /// Second compared operand.
        vm: VecOperand,
        /// NZCV substituted when the condition fails.
        nzcv: u8,
        /// Condition tested.
        cond: Cond,
    },
    /// `Vn, Vm` or `Vn, #0.0` — `FCMP`.
    VecCompare {
        /// First compared operand.
        vn: VecOperand,
        /// Second compared operand; `None` for the compare-with-zero forms.
        vm: Option<VecOperand>,
    },
    /// `Vd, {Vn..}, Vm` — `TBL` and `TBX`.
    TableLookup {
        /// Destination.
        vd: VecOperand,
        /// First table register.
        table: Vec,
        /// Number of consecutive table registers.
        table_len: u8,
        /// Index vector.
        vm: VecOperand,
    },
    /// `Rd, Vn` or `Vd, Rn` — transfers between the two register files:
    /// `FMOV`, `SCVTF`, `FCVTZS`, `UMOV`, `INS`.
    ///
    /// The direction is implied by the [`Op`], so it is not a field here.
    VecGprMove {
        /// The general-purpose side of the transfer.
        gpr: Gpr,
        /// The SIMD/FP side.
        vec: VecOperand,
    },
    /// `#imm` — exception generation (`SVC`, `BRK`, `HLT`) and the barriers.
    Imm {
        /// Raw immediate field.
        imm: u64,
    },
    /// `Rt, sysreg` — `MRS`/`MSR` register form, with the system register left
    /// as its raw encoding.
    System {
        /// Transferred register.
        rt: Gpr,
        /// Packed `op0:op1:CRn:CRm:op2`.
        sysreg: u16,
    },
}

/// The instruction the decoder yields for an encoding it does not implement.
///
/// A decode never fails and never panics: it returns this. The trap fires when
/// the interpreter reaches the instruction, so the reported PC is the guest's
/// and the decoded-instruction cache holds one entry like any other.
impl Form {
    /// Whether every general-purpose register the form names is storage, every
    /// shift it applies at `width` stays inside the operand, and every
    /// general-purpose access moves one to eight bytes.
    pub open spec fn registers_valid(self, width: RegWidth) -> bool {
        match self {
            Form::RegImm { rd, rn, .. } => rd.is_valid() && rn.is_valid(),
            Form::RegShifted { rd, rn, rm } => rd.is_valid() && rn.is_valid() && rm.reg.is_valid()
                && rm.amount < width.bits(),
            Form::RegExtended { rd, rn, rm } => rd.is_valid() && rn.is_valid() && rm.reg.is_valid()
                && rm.amount < 64,
            Form::ThreeSource { rd, rn, rm, ra } => rd.is_valid() && rn.is_valid() && rm.is_valid() && ra.is_valid(),
            Form::Bitfield { rd, rn, rm, .. } => rd.is_valid() && rn.is_valid() && rm.is_valid(),
            Form::CondSelect { rd, rn, rm, .. } => rd.is_valid() && rn.is_valid() && rm.is_valid(),
            Form::CondCompare { rn, .. } => rn.is_valid(),
            Form::BranchReg { rt, .. } => rt.is_valid(),
            Form::BranchIndirect { rn } => rn.is_valid(),
            Form::LoadStore { rt, rt2, rs, addr, size, .. } => rt.is_valid()
                && 1 <= size.bytes <= 8
                && (rt2 matches Some(reg) ==> reg.is_valid())
                && (rs matches Some(reg) ==> reg.is_valid())
                && addr.registers_valid(),
            Form::Prefetch { addr, .. } => addr.registers_valid(),
            Form::LoadStoreVec { addr, .. } => addr.registers_valid(),
            Form::VecGprMove { gpr, .. } => gpr.is_valid(),
            Form::System { rt, .. } => rt.is_valid(),
            _ => true,
        }
    }
}

impl Instruction {
    /// Whether the instruction can be executed without naming a register that
    /// has no storage: every register valid, every shift in range.
    pub open spec fn operands_valid(self) -> bool {
        self.form.registers_valid(self.width)
    }
}

#[verifier::allow_in_spec]
pub fn unallocated(encoding: u32) -> (r: Instruction)
    returns
        Instruction::new(encoding, Op::Unallocated, Form::NoOperands),
{
    Instruction::new(encoding, Op::Unallocated, Form::NoOperands)
}

} // verus!
