//! Reading operands out of the register file.
//!
//! The decoder resolved *which* register and *how much* to shift; these apply
//! that to a value. They are separate from the dispatch so that the shifted-,
//! extended- and plain-register arms share one implementation rather than
//! three near-copies.
use vstd::prelude::*;
use vstd::arithmetic::power2::{pow2, lemma2_to64, lemma_pow2_pos, lemma_pow2_adds};
use vstd::bits::{lemma_u64_shl_is_mul, lemma_u64_pow2_no_overflow};
use crate::decode::address::{AddrMode, WriteBack};
use crate::decode::operand::{ExtendKind, ExtendedReg, RegWidth, ShiftKind, ShiftedReg};
use crate::reg::Gpr;
use crate::regfile::RegFile;

verus! {

/// `2^n` for `n` up to 64, in a type wide enough to hold `2^64`.
pub fn power_of_two(n: u32) -> (r: u128)
    requires
        n <= 64,
    ensures
        r == pow2(n as nat),
        0 < r <= 0x1_0000_0000_0000_0000,
{
    proof { lemma2_to64(); lemma_pow2_pos(n as nat); }
    if n == 64 {
        return 0x1_0000_0000_0000_0000;
    }
    proof {
        lemma_u64_pow2_no_overflow(n as nat);
        lemma_u64_shl_is_mul(1, n as u64);
    }
    (1u64 << n as u64) as u128
}

/// Reads a general-purpose operand at `width`, zero-extended to 64 bits.
pub fn read_gpr(regs: &RegFile, reg: Gpr, width: RegWidth) -> (r: u64)
    requires
        reg.is_valid(),
    ensures
        r == regs.value_of(reg) as int % width.modulus(),
{
    let value = regs.read_x(reg);
    match width {
        RegWidth::W32 => value % 0x1_0000_0000,
        RegWidth::X64 => value,
    }
}

/// A constant shift of `value`, an operand already read at `width`: `LSL`
/// multiplies and drops what leaves the width, `LSR` divides, `ASR` divides
/// with the sign bit filling in from the top, and `ROR` moves the low `amount`
/// bits to the top.
pub open spec fn shifted(value: int, kind: ShiftKind, amount: nat, width: RegWidth) -> int {
    let m = width.modulus();
    let p = pow2(amount) as int;
    match kind {
        ShiftKind::Lsl => (value * p) % m,
        ShiftKind::Lsr => value / p,
        ShiftKind::Asr => if value < width.sign_weight() { value / p } else { m - 1 - (m - 1 - value) / p },
        ShiftKind::Ror => (value / p + (value % p) * pow2((width.bits() - amount) as nat)) % m,
    }
}

/// Reads a register operand and applies its constant shift.
///
/// The shift amount is below the operand width, which the decoder has already
/// range-checked.
pub fn read_shifted(regs: &RegFile, operand: ShiftedReg, width: RegWidth) -> (r: u64)
    requires
        operand.reg.is_valid(),
        operand.amount < width.bits(),
    ensures
        r == shifted(regs.value_of(operand.reg) as int % width.modulus(), operand.kind, operand.amount as nat, width),
{
    let value = read_gpr(regs, operand.reg, width) as u128;
    let amount = operand.amount as u32;
    let bits = width.bits();
    let modulus = power_of_two(bits);
    let p = power_of_two(amount);
    proof {
        lemma2_to64();
        lemma_pow2_adds(amount as nat, (bits - amount) as nat);
        assert(value < modulus);
    }

    let shifted_value: u128 = match operand.kind {
        ShiftKind::Lsl => {
            assert(value * p < 0x1_0000_0000_0000_0000_0000_0000_0000_0000) by (nonlinear_arith)
                requires value < 0x1_0000_0000_0000_0000, p <= 0x1_0000_0000_0000_0000;
            (value * p) % modulus
        },
        ShiftKind::Lsr => {
            assert(value / p <= value) by (nonlinear_arith)
                requires p > 0;
            value / p
        },
        ShiftKind::Asr => {
            assert(value / p <= value) by (nonlinear_arith)
                requires p > 0;
            if value < modulus / 2 {
                value / p
            } else {
                let complement = modulus - 1 - value;
                assert(complement / p <= complement) by (nonlinear_arith)
                    requires p > 0;
                modulus - 1 - complement / p
            }
        },
        ShiftKind::Ror => {
            let q = power_of_two(bits - amount);
            assert(p * q == modulus);
            assert((value % p) * q < modulus) by (nonlinear_arith)
                requires value % p < p, p * q == modulus, q > 0;
            assert(value / p <= value) by (nonlinear_arith)
                requires p > 0;
            (value / p + (value % p) * q) % modulus
        },
    };
    shifted_value as u64
}

/// An extended operand: the low `source_bits` of `raw`, sign- or
/// zero-extended to 64 bits, then shifted left by `amount` within 64 bits.
pub open spec fn extended(raw: u64, kind: ExtendKind, amount: nat) -> int {
    let b = kind.source_bits() as nat;
    let low = raw as int % pow2(b) as int;
    let widened = if kind.is_signed() && b > 0 && low >= pow2((b - 1) as nat) {
        low + 0x1_0000_0000_0000_0000 - pow2(b)
    } else {
        low
    };
    (widened * pow2(amount)) % 0x1_0000_0000_0000_0000
}

/// Reads a register operand, extends it from its source width, and shifts left.
pub fn read_extended(regs: &RegFile, operand: ExtendedReg) -> (r: u64)
    requires
        operand.reg.is_valid(),
        operand.amount < 64,
    ensures
        r == extended(regs.value_of(operand.reg), operand.kind, operand.amount as nat),
{
    let raw = regs.read_x(operand.reg) as u128;
    let source_bits = operand.kind.source_bits();
    let range = power_of_two(source_bits);
    let low = raw % range;
    proof { lemma2_to64(); lemma_pow2_pos((source_bits - 1) as nat); }
    let widened: u128 = if operand.kind.is_signed() && low >= range / 2 {
        low + 0x1_0000_0000_0000_0000 - range
    } else {
        low
    };
    proof {
        assert(range / 2 == pow2((source_bits - 1) as nat)) by {
            vstd::arithmetic::power2::lemma_pow2_unfold(source_bits as nat);
        }
    }
    let scale = power_of_two(operand.amount as u32);
    assert(widened * scale < 0x1_0000_0000_0000_0000_0000_0000_0000_0000) by (nonlinear_arith)
        requires widened < 0x1_0000_0000_0000_0000, scale <= 0x1_0000_0000_0000_0000;
    ((widened * scale) % 0x1_0000_0000_0000_0000) as u64
}

/// The address an access forms, and the base write-back it owes.
#[derive(Debug, Clone, Copy, PartialEq, Eq)]
pub struct EffectiveAddress {
    /// Address the access uses.
    pub address: u64,
    /// Value to store back into the base register, if any.
    pub writeback: Option<(Gpr, u64)>,
}

/// `base + offset`, wrapping at 64 bits.
pub open spec fn offset_address(base: u64, offset: int) -> u64 {
    ((base as int + offset) % 0x1_0000_0000_0000_0000) as u64
}

/// The address an access forms: a PC-relative one from `pc`; otherwise from
/// the base register plus the offset (the extended index for the register
/// form, nothing for the base-only form). A post-indexed access uses the old
/// base; a pre-indexed or plain one the updated address. Indexed forms owe
/// the updated address back to the base register.
pub open spec fn effective_address_spec(regs: RegFile, addr: AddrMode, pc: u64) -> EffectiveAddress {
    match addr {
        AddrMode::PcRelative { offset } => EffectiveAddress { address: offset_address(pc, offset as int), writeback: None },
        _ => {
            let (base, offset, writeback): (Gpr, int, WriteBack) = match addr {
                AddrMode::Immediate { base, offset, writeback } => (base, offset as int, writeback),
                AddrMode::Register { base, index, writeback } => (base, extended(regs.value_of(index.reg), index.kind, index.amount as nat), writeback),
                AddrMode::BaseOnly { base } => (base, 0, WriteBack::NoUpdate),
                AddrMode::PcRelative { .. } => (Gpr::ZR, 0, WriteBack::NoUpdate),
            };
            let old_base = regs.value_of(base);
            let updated = offset_address(old_base, offset);
            EffectiveAddress {
                address: if writeback is Post { old_base } else { updated },
                writeback: if writeback is NoUpdate { None } else { Some((base, updated)) },
            }
        },
    }
}

/// Whether every register an address mode reads is a storage location, and
/// its index shift is in range.
pub open spec fn reads_valid_registers(addr: AddrMode) -> bool {
    match addr {
        AddrMode::Immediate { base, .. } => base.is_valid(),
        AddrMode::Register { base, index, .. } => base.is_valid() && index.reg.is_valid() && index.amount < 64,
        AddrMode::BaseOnly { base } => base.is_valid(),
        AddrMode::PcRelative { .. } => true,
    }
}

/// Computes an access's effective address from the register file and `pc`.
///
/// Write-back is reported rather than applied: a faulting access must leave the
/// base register untouched, and only the caller knows whether the access
/// succeeded.
pub fn effective_address(regs: &RegFile, addr: AddrMode, pc: u64) -> (r: EffectiveAddress)
    requires
        reads_valid_registers(addr),
    ensures
        r == effective_address_spec(*regs, addr, pc),
{
    let (base_reg, updated, writeback) = match addr {
        AddrMode::Immediate { base, offset, writeback } => {
            (base, regs.read_x(base).wrapping_add_signed(offset), writeback)
        },
        AddrMode::Register { base, index, writeback } => {
            let extended_index = read_extended(regs, index);
            (base, regs.read_x(base).wrapping_add(extended_index), writeback)
        },
        AddrMode::BaseOnly { base } => (base, regs.read_x(base), WriteBack::NoUpdate),
        AddrMode::PcRelative { offset } => {
            return EffectiveAddress { address: pc.wrapping_add_signed(offset), writeback: None };
        },
    };

    let base_value = regs.read_x(base_reg);
    let address = match writeback {
        WriteBack::Post => base_value,
        WriteBack::Pre | WriteBack::NoUpdate => updated,
    };
    EffectiveAddress {
        address,
        writeback: match writeback {
            WriteBack::NoUpdate => None,
            WriteBack::Pre | WriteBack::Post => Some((base_reg, updated)),
        },
    }
}

/// Immediate addressing indexes as its mode says: with no write-back and
/// pre-indexed, the access is at the base plus the offset, wrapping at
/// 2^64; post-indexed, at the base itself; pre- and post-indexed owe the
/// base plus the offset back to the base register, and no write-back owes
/// nothing.
pub proof fn lemma_immediate_indexing(regs: RegFile, base: Gpr, offset: i64, writeback: WriteBack, pc: u64)
    ensures
        ({
            let computed = effective_address_spec(regs, AddrMode::Immediate { base, offset, writeback }, pc);
            let old_base = regs.value_of(base) as int;
            let moved = ((old_base + offset) % 0x1_0000_0000_0000_0000) as u64;
            &&& computed.address == (if writeback == WriteBack::Post { old_base as u64 } else { moved })
            &&& computed.writeback == (if writeback == WriteBack::NoUpdate { None } else { Some((base, moved)) })
            &&& computed.address as int == (if writeback == WriteBack::Post { old_base } else { (old_base + offset) % 0x1_0000_0000_0000_0000 })
        }),
{
}

} // verus!
