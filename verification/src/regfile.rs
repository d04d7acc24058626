//! The architectural register file.
//!
//! `x31` never reaches this type. The decoder has already resolved it to
//! [`Gpr::ZR`] or [`Gpr::SP`], so reads and writes here are a bounds-checked
//! array access plus one branch for the two special forms — no per-instruction
//! "did this encoding mean SP?" question.
use vstd::prelude::*;
use crate::pstate::{Daif, ExceptionLevel, Nzcv, Pstate, StackPointerSelect};
use crate::reg::{Gpr, Vec};
pub use crate::reg::NUM_GPR;

verus! {

/// What the general-purpose storage `gprs` holds once `value` is written to
/// `reg`: `X(n)` replaces `xn`, `SP` the stack pointer, and `ZR` discards it.
pub open spec fn put_gpr(gprs: (Seq<u64>, u64), reg: Gpr, value: u64) -> (Seq<u64>, u64) {
    match reg {
        Gpr::X(index) => (gprs.0.update(index as int, value), gprs.1),
        Gpr::SP => (gprs.0, value),
        Gpr::ZR => gprs,
    }
}

/// X0–X30, SP, PC, V0–V31 and PSTATE.
///
/// FPCR/FPSR live here too: the trace stream carries them alongside the
/// architectural core, and the FP backend selection is keyed on FPCR.
#[derive(Debug, Clone, PartialEq, Eq)]
pub struct RegFile {
    /// `x0`–`x30`. `x31` is not a storage location.
    pub x: [u64; 31],
    /// The stack pointer.
    pub sp: u64,
    /// The program counter.
    pub pc: u64,
    /// `v0`–`v31`, 128 bits each.
    pub v: [u128; 32],
    /// Processor state.
    pub pstate: Pstate,
    /// Floating-point control register.
    pub fpcr: u64,
    /// Floating-point status register.
    pub fpsr: u64,
}

impl Default for RegFile {
    /// The reset state.
    fn default() -> (r: RegFile)
        ensures
            r.is_reset(),
    {
        RegFile::new()
    }
}

impl RegFile {
    /// `x0`–`x30`, in order.
    pub open spec fn xs(&self) -> Seq<u64> {
        self.x@
    }

    /// The stack pointer's storage.
    pub open spec fn sp_value(&self) -> u64 {
        self.sp
    }

    /// The program counter's storage.
    pub open spec fn pc_value(&self) -> u64 {
        self.pc
    }

    /// `v0`–`v31`, in order.
    pub open spec fn vs(&self) -> Seq<u128> {
        self.v@
    }

    /// The file always holds 31 general-purpose and 32 vector registers.
    pub proof fn lemma_shape(&self)
        ensures
            self.xs().len() == 31,
            self.vs().len() == 32,
    {
    }

    /// What reading `reg` gives: its storage, `SP`'s storage, or zero.
    pub open spec fn value_of(&self, reg: Gpr) -> u64 {
        match reg {
            Gpr::X(index) => self.xs()[index as int],
            Gpr::SP => self.sp_value(),
            Gpr::ZR => 0,
        }
    }

    /// What writing `value` to `reg` does to the general-purpose storage: `ZR`
    /// discards it, `SP` replaces the stack pointer, `X(n)` replaces `xn`.
    /// Every other register is untouched.
    pub open spec fn written(&self, old: RegFile, reg: Gpr, value: u64) -> bool {
        &&& self.xs() == (match reg {
            Gpr::X(index) => old.xs().update(index as int, value),
            _ => old.xs(),
        })
        &&& self.sp_value() == (if reg is SP { value } else { old.sp_value() })
        &&& self.pc_value() == old.pc_value()
        &&& self.vs() == old.vs()
        &&& self.pstate == old.pstate
        &&& self.fpcr == old.fpcr
        &&& self.fpsr == old.fpsr
    }

    /// The general-purpose storage: `x0`–`x30`, then `SP`.
    pub open spec fn gprs(&self) -> (Seq<u64>, u64) {
        (self.xs(), self.sp_value())
    }

    /// Everything but the program counter is as in `old`.
    pub open spec fn same_but_pc(&self, old: RegFile) -> bool {
        &&& self.xs() == old.xs()
        &&& self.sp_value() == old.sp_value()
        &&& self.vs() == old.vs()
        &&& self.pstate == old.pstate
        &&& self.fpcr == old.fpcr
        &&& self.fpsr == old.fpsr
    }

    /// Every architectural register zero, at EL0 on `SP_EL0`.
    pub open spec fn is_reset(&self) -> bool {
        &&& forall|i: int| 0 <= i < 31 ==> self.xs()[i] == 0
        &&& forall|i: int| 0 <= i < 32 ==> self.vs()[i] == 0
        &&& self.sp_value() == 0
        &&& self.pc_value() == 0
        &&& self.pstate.nzcv.packed() == 0
        &&& self.pstate.daif.packed() == 0
        &&& self.pstate.el == ExceptionLevel::El0
        &&& self.pstate.sp_sel == StackPointerSelect::El0
        &&& self.fpcr == 0
        &&& self.fpsr == 0
    }

    /// A register file with every architectural register zeroed.
    pub fn new() -> (r: RegFile)
        ensures
            r.is_reset(),
    {
        RegFile {
            x: [0u64; 31],
            sp: 0,
            pc: 0,
            v: [0u128; 32],
            pstate: Pstate {
                nzcv: Nzcv { n: false, z: false, c: false, v: false },
                daif: Daif { d: false, a: false, i: false, f: false },
                el: ExceptionLevel::El0,
                sp_sel: StackPointerSelect::El0,
            },
            fpcr: 0,
            fpsr: 0,
        }
    }

    /// Reads a 64-bit general-purpose operand. `ZR` reads as zero.
    pub fn read_x(&self, reg: Gpr) -> (r: u64)
        requires
            reg.is_valid(),
        ensures
            r == self.value_of(reg),
    {
        match reg {
            Gpr::X(index) => self.x[index as usize],
            Gpr::SP => self.sp,
            Gpr::ZR => 0,
        }
    }

    /// Reads the low 32 bits of a general-purpose operand.
    pub fn read_w(&self, reg: Gpr) -> (r: u32)
        requires
            reg.is_valid(),
        ensures
            r == self.value_of(reg) % 0x1_0000_0000,
    {
        let value = self.read_x(reg);
        (value % 0x1_0000_0000) as u32
    }

    /// Writes a 64-bit general-purpose operand. Writes to `ZR` are discarded.
    pub fn write_x(&mut self, reg: Gpr, value: u64)
        requires
            reg.is_valid(),
        ensures
            final(self).written(*old(self), reg, value),
    {
        match reg {
            Gpr::X(index) => self.x[index as usize] = value,
            Gpr::SP => self.sp = value,
            Gpr::ZR => {},
        }
    }

    /// Writes a 32-bit result, zero-extending to the full 64-bit register.
    ///
    /// Zero-extension is architectural, not a convenience: a `W`-form write
    /// clears the upper half rather than preserving it.
    pub fn write_w(&mut self, reg: Gpr, value: u32)
        requires
            reg.is_valid(),
        ensures
            final(self).written(*old(self), reg, value as u64),
    {
        self.write_x(reg, value as u64);
    }

    /// Reads the full 128 bits of a SIMD/FP register.
    pub fn read_v(&self, reg: Vec) -> (r: u128)
        ensures
            r == self.vs()[reg.slot() as int],
    {
        self.v[reg.index() as usize]
    }

    /// Writes the full 128 bits of a SIMD/FP register; nothing else changes.
    pub fn write_v(&mut self, reg: Vec, value: u128)
        ensures
            final(self).vs() == old(self).vs().update(reg.slot() as int, value),
            final(self).xs() == old(self).xs(),
            final(self).sp_value() == old(self).sp_value(),
            final(self).pc_value() == old(self).pc_value(),
            final(self).pstate == old(self).pstate,
            final(self).fpcr == old(self).fpcr,
            final(self).fpsr == old(self).fpsr,
    {
        let index = reg.index() as usize;
        self.v[index] = value;
    }

    /// The program counter.
    pub fn pc(&self) -> (r: u64)
        ensures
            r == self.pc_value(),
    {
        self.pc
    }

    /// Sets the program counter; nothing else changes.
    pub fn set_pc(&mut self, value: u64)
        ensures
            final(self).pc_value() == value,
            final(self).same_but_pc(*old(self)),
    {
        self.pc = value;
    }

    /// The stack pointer, independent of whether any operand named it.
    pub fn sp(&self) -> (r: u64)
        ensures
            r == self.sp_value(),
    {
        self.sp
    }

    /// Sets the stack pointer, as a write to `SP` does.
    pub fn set_sp(&mut self, value: u64)
        ensures
            final(self).written(*old(self), Gpr::SP, value),
    {
        self.sp = value;
    }

    /// Reads `xn` by architectural index, for the trace and exception paths
    /// that walk the whole file rather than a decoded operand.
    pub fn x(&self, index: u8) -> (r: u64)
        requires
            index < 31,
        ensures
            r == self.xs()[index as int],
    {
        self.x[index as usize]
    }
}

/// Reading a register after writing it gives back what was written, except
/// that the zero register reads as zero; every other register reads as it did.
pub proof fn lemma_read_after_write(before: RegFile, after: RegFile, written: Gpr, value: u64, read: Gpr)
    requires
        written.is_valid(),
        read.is_valid(),
        after.written(before, written, value),
    ensures
        read == written ==> after.value_of(read) == (if written is ZR { 0 } else { value }),
        read != written ==> after.value_of(read) == before.value_of(read),
{
    before.lemma_shape();
}

} // verus!
