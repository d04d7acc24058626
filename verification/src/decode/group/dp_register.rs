//! Data processing (register).
use vstd::prelude::*;
use crate::decode::field::{bits, byte_field, field, register_field, wide_field};
use crate::decode::instruction::{unallocated, Form, Instruction};
use crate::decode::op::Op;
use crate::decode::operand::{Cond, ExtendKind, ExtendedReg, RegWidth, ShiftKind, ShiftedReg};
use crate::reg::Gpr;

verus! {

/// The `Rd`, `Rn` or `Rm` field at `lo`, with slot 31 as the zero register.
pub open spec fn zr_at(encoding: u32, lo: nat) -> Gpr {
    Gpr::from_index_zr(field(encoding, lo + 4, lo) as u8)
}

/// The same field with slot 31 as the stack pointer.
pub open spec fn sp_at(encoding: u32, lo: nat) -> Gpr {
    Gpr::from_index_sp(field(encoding, lo + 4, lo) as u8)
}

/// The operand width selected by `sf`, bit 31.
pub open spec fn width_of(encoding: u32) -> RegWidth {
    RegWidth::from_sf(field(encoding, 31, 31) == 1)
}

/// Sets flags on `insn` when `sets_flags` holds.
pub open spec fn flagged(insn: Instruction, sets_flags: bool) -> Instruction {
    if sets_flags { insn.setting_flags() } else { insn }
}

/// The "Data Processing -- Register" table: `op1` (bit 28) picks the half,
/// then `op2` (bits 24..21) the row.
pub open spec fn spec_data_processing_register(encoding: u32) -> Instruction {
    let op1 = field(encoding, 28, 28);
    let op2 = field(encoding, 24, 21);
    if op1 == 0 && op2 < 8 {
        spec_logical_shifted(encoding)
    } else if op1 == 0 && op2 % 2 == 0 {
        spec_add_sub_shifted(encoding)
    } else if op1 == 0 {
        spec_add_sub_extended(encoding)
    } else if op2 == 0 {
        spec_add_sub_with_carry(encoding)
    } else if op2 == 2 {
        spec_conditional_compare(encoding)
    } else if op2 == 4 {
        spec_conditional_select(encoding)
    } else if op2 == 6 {
        spec_two_source_or_one_source(encoding)
    } else if op2 >= 8 {
        spec_three_source(encoding)
    } else {
        unallocated(encoding)
    }
}

/// `op0 = x101` — data processing (register).
///
/// Dispatch follows the ARM ARM's "Data Processing -- Register" table: `op1`
/// (bit 28) picks the half, then `op2` (bits 24..21) the row. Rows 0001 and
/// 0011 of the second half are FEAT_FlagM and 0101 is unallocated; none is
/// advertised.
pub fn data_processing_register(encoding: u32) -> (r: Instruction)
    ensures
        r.operands_valid(),
        r == spec_data_processing_register(encoding),
{
    let op1 = bits(encoding, 28, 28);
    let op2 = bits(encoding, 24, 21);

    if op1 == 0 && op2 < 8 {
        // Logical (shifted register) — op2 = 0xxx.
        logical_shifted(encoding)
    } else if op1 == 0 && op2 % 2 == 0 {
        // Add/sub (shifted register) — op2 = 1xx0.
        add_sub_shifted(encoding)
    } else if op1 == 0 {
        // Add/sub (extended register) — op2 = 1xx1.
        add_sub_extended(encoding)
    } else if op2 == 0b0000 {
        add_sub_with_carry(encoding)
    } else if op2 == 0b0010 {
        conditional_compare(encoding)
    } else if op2 == 0b0100 {
        conditional_select(encoding)
    } else if op2 == 0b0110 {
        two_source_or_one_source(encoding)
    } else if op2 >= 0b1000 {
        three_source(encoding)
    } else {
        unallocated(encoding)
    }
}

/// Logical (shifted register): opcode from `opc` (bits 30..29) and `N` (bit
/// 21); `ANDS` (opc = 11) is `AND` setting flags; a 32-bit shift of 32 or more
/// is unallocated.
pub open spec fn spec_logical_shifted(encoding: u32) -> Instruction {
    let width = width_of(encoding);
    let amount = field(encoding, 15, 10) as u8;
    if width == RegWidth::W32 && amount >= 32 {
        unallocated(encoding)
    } else {
        let opc = field(encoding, 30, 29);
        let is_negated = field(encoding, 21, 21) == 1;
        let op = if opc == 0 || opc == 3 {
            if is_negated { Op::Bic } else { Op::And }
        } else if opc == 1 {
            if is_negated { Op::Orn } else { Op::Orr }
        } else {
            if is_negated { Op::Eon } else { Op::Eor }
        };
        let form = Form::RegShifted {
            rd: zr_at(encoding, 0),
            rn: zr_at(encoding, 5),
            rm: ShiftedReg {
                reg: zr_at(encoding, 16),
                kind: shift_kind(field(encoding, 23, 22)),
                amount,
            },
        };
        flagged(Instruction::new(encoding, op, form).with_width(width), opc == 3)
    }
}

/// Logical (shifted register): `AND`, `BIC`, `ORR`, `ORN`, `EOR`, `EON`.
///
/// `MOV` (register), `MVN` and `TST` are aliases of `ORR`, `ORN` and `ANDS`
/// with the zero register in one slot, so they need no decoding of their own.
fn logical_shifted(encoding: u32) -> (r: Instruction)
    ensures
        r.operands_valid(),
        r == spec_logical_shifted(encoding),
{
    let width = RegWidth::from_sf(bits(encoding, 31, 31) == 1);
    let amount = bits(encoding, 15, 10) as u8;
    proof { vstd::arithmetic::power2::lemma2_to64(); }
    // The shift amount indexes a bit of the operand, so bit 5 of it is
    // unallocated in the 32-bit form.
    if width == RegWidth::W32 && amount >= 32 {
        return unallocated(encoding);
    }

    let opc = bits(encoding, 30, 29);
    let is_negated = bits(encoding, 21, 21) == 1;
    let op = if opc == 0b00 || opc == 0b11 {
        if is_negated { Op::Bic } else { Op::And }
    } else if opc == 0b01 {
        if is_negated { Op::Orn } else { Op::Orr }
    } else {
        if is_negated { Op::Eon } else { Op::Eor }
    };

    let form = Form::RegShifted {
        rd: Gpr::from_index_zr(register_field(encoding, 0)),
        rn: Gpr::from_index_zr(register_field(encoding, 5)),
        rm: ShiftedReg {
            reg: Gpr::from_index_zr(register_field(encoding, 16)),
            // The logical group is the only one that allows `ROR`.
            kind: shift_kind(bits(encoding, 23, 22)),
            amount,
        },
    };

    let insn = Instruction::new(encoding, op, form).with_width(width);
    // Only `ANDS`, opc = 11, sets flags.
    if opc == 0b11 {
        insn.setting_flags()
    } else {
        insn
    }
}

/// Add/sub (shifted register): `ROR` and 32-bit shifts of 32 or more are
/// unallocated.
pub open spec fn spec_add_sub_shifted(encoding: u32) -> Instruction {
    let width = width_of(encoding);
    let shift = field(encoding, 23, 22);
    let amount = field(encoding, 15, 10) as u8;
    if shift == 3 || (width == RegWidth::W32 && amount >= 32) {
        unallocated(encoding)
    } else {
        let form = Form::RegShifted {
            rd: zr_at(encoding, 0),
            rn: zr_at(encoding, 5),
            rm: ShiftedReg { reg: zr_at(encoding, 16), kind: shift_kind(shift), amount },
        };
        spec_finish_arithmetic(encoding, form, width)
    }
}

/// Add/sub (shifted register).
fn add_sub_shifted(encoding: u32) -> (r: Instruction)
    ensures
        r.operands_valid(),
        r == spec_add_sub_shifted(encoding),
{
    let width = RegWidth::from_sf(bits(encoding, 31, 31) == 1);
    let shift = bits(encoding, 23, 22);
    let amount = bits(encoding, 15, 10) as u8;
    proof { vstd::arithmetic::power2::lemma2_to64(); }
    // The arithmetic group has no `ROR`, and the shift amount cannot index
    // bit 32 or above at 32 bits.
    if shift == 0b11 || (width == RegWidth::W32 && amount >= 32) {
        return unallocated(encoding);
    }

    let form = Form::RegShifted {
        rd: Gpr::from_index_zr(register_field(encoding, 0)),
        rn: Gpr::from_index_zr(register_field(encoding, 5)),
        rm: ShiftedReg {
            reg: Gpr::from_index_zr(register_field(encoding, 16)),
            kind: shift_kind(shift),
            amount,
        },
    };
    finish_arithmetic(encoding, form, width)
}

/// Add/sub (extended register): `opt` must be zero and the left shift at most
/// four; `Rn` is always SP-capable and `Rd` is unless flags are set.
pub open spec fn spec_add_sub_extended(encoding: u32) -> Instruction {
    let width = width_of(encoding);
    let amount = field(encoding, 12, 10) as u8;
    if field(encoding, 23, 22) != 0 || amount > 4 {
        unallocated(encoding)
    } else {
        let sets_flags = field(encoding, 29, 29) == 1;
        let rd = if sets_flags { zr_at(encoding, 0) } else { sp_at(encoding, 0) };
        let form = Form::RegExtended {
            rd,
            rn: sp_at(encoding, 5),
            rm: ExtendedReg {
                reg: zr_at(encoding, 16),
                kind: ExtendKind::from_option(field(encoding, 15, 13) as u8),
                amount,
            },
        };
        spec_finish_arithmetic(encoding, form, width)
    }
}

/// Add/sub (extended register).
///
/// This is the only add/sub form that can name `SP` as a source, which is why
/// `CMP SP, X0` assembles to it rather than to the shifted form.
fn add_sub_extended(encoding: u32) -> (r: Instruction)
    ensures
        r.operands_valid(),
        r == spec_add_sub_extended(encoding),
{
    let width = RegWidth::from_sf(bits(encoding, 31, 31) == 1);
    let amount = bits(encoding, 12, 10) as u8;
    // `opt` must be zero, and the post-extension left shift is limited to 0-4.
    if bits(encoding, 23, 22) != 0 || amount > 4 {
        return unallocated(encoding);
    }
    let sets_flags = bits(encoding, 29, 29) == 1;

    // Rn is always SP-capable here; Rd is SP-capable only when flags are not
    // set, which is what separates `ADD SP, ...` from `CMP SP, ...`.
    let rd = if sets_flags {
        Gpr::from_index_zr(register_field(encoding, 0))
    } else {
        Gpr::from_index_sp(register_field(encoding, 0))
    };
    let form = Form::RegExtended {
        rd,
        rn: Gpr::from_index_sp(register_field(encoding, 5)),
        rm: ExtendedReg {
            // Rm is a data operand, never SP, whatever the extension.
            reg: Gpr::from_index_zr(register_field(encoding, 16)),
            kind: ExtendKind::from_option(bits(encoding, 15, 13) as u8),
            amount,
        },
    };
    finish_arithmetic(encoding, form, width)
}

/// The unshifted register form shared by the groups whose second source has
/// no shift field.
pub open spec fn plain_register(encoding: u32) -> Form {
    Form::RegShifted {
        rd: zr_at(encoding, 0),
        rn: zr_at(encoding, 5),
        rm: ShiftedReg { reg: zr_at(encoding, 16), kind: ShiftKind::Lsl, amount: 0 },
    }
}

/// `RegShifted` with an `LSL #0` second source, the shape of the groups that
/// have no shift field.
fn unshifted_register(encoding: u32) -> (r: Form)
    ensures
        r.registers_valid(RegWidth::W32), r.registers_valid(RegWidth::X64),
        r == plain_register(encoding),
{
    Form::RegShifted {
        rd: Gpr::from_index_zr(register_field(encoding, 0)),
        rn: Gpr::from_index_zr(register_field(encoding, 5)),
        rm: ShiftedReg {
            reg: Gpr::from_index_zr(register_field(encoding, 16)),
            kind: ShiftKind::Lsl,
            amount: 0,
        },
    }
}

/// Add/sub with carry: bits 15..10 must be zero; bit 30 selects `SBC`.
pub open spec fn spec_add_sub_with_carry(encoding: u32) -> Instruction {
    if field(encoding, 15, 10) != 0 {
        unallocated(encoding)
    } else {
        let op = if field(encoding, 30, 30) == 1 { Op::Sbc } else { Op::Adc };
        flagged(
            Instruction::new(encoding, op, plain_register(encoding)).with_width(width_of(encoding)),
            field(encoding, 29, 29) == 1,
        )
    }
}

/// Add/sub with carry: `ADC`, `ADCS`, `SBC`, `SBCS`.
fn add_sub_with_carry(encoding: u32) -> (r: Instruction)
    ensures
        r.operands_valid(),
        r == spec_add_sub_with_carry(encoding),
{
    // The whole `Rm`-adjacent field is fixed at zero in this encoding.
    if bits(encoding, 15, 10) != 0 {
        return unallocated(encoding);
    }
    let width = RegWidth::from_sf(bits(encoding, 31, 31) == 1);
    // There is no shift field; `LSL #0` is the identity.
    let form = unshifted_register(encoding);

    let op = if bits(encoding, 30, 30) == 1 { Op::Sbc } else { Op::Adc };
    let insn = Instruction::new(encoding, op, form).with_width(width);
    if bits(encoding, 29, 29) == 1 {
        insn.setting_flags()
    } else {
        insn
    }
}

/// Conditional compare: `S` must be set and `o2`, `o3` clear; bit 11 selects
/// the immediate form, and the register form is carried as `CondSelect` with
/// the zero register as its destination.
pub open spec fn spec_conditional_compare(encoding: u32) -> Instruction {
    if field(encoding, 29, 29) != 1 || field(encoding, 10, 10) != 0 || field(encoding, 4, 4) != 0 {
        unallocated(encoding)
    } else {
        let cond = Cond::from_bits(byte_field(encoding, 15, 12));
        let rn = zr_at(encoding, 5);
        let form = if field(encoding, 11, 11) == 1 {
            Form::CondCompare {
                rn,
                imm: wide_field(encoding, 20, 16),
                nzcv: byte_field(encoding, 3, 0),
                cond,
            }
        } else {
            Form::CondSelect { rd: Gpr::ZR, rn, rm: zr_at(encoding, 16), cond }
        };
        let op = if field(encoding, 30, 30) == 1 { Op::Ccmp } else { Op::Ccmn };
        Instruction::new(encoding, op, form).with_width(width_of(encoding)).setting_flags()
    }
}

/// Conditional compare, register and immediate forms.
///
/// The register form is rewritten into [`Form::CondSelect`] rather than given a
/// form of its own: it has the same four operands, and `Rd` is unused because
/// the result is NZCV.
fn conditional_compare(encoding: u32) -> (r: Instruction)
    ensures
        r.operands_valid(),
        r == spec_conditional_compare(encoding),
{
    // o2 (bit 10) and o3 (bit 4) are fixed at zero, and S (bit 29) at one:
    // both `CCMP` and `CCMN` always write flags.
    if bits(encoding, 29, 29) != 1 || bits(encoding, 10, 10) != 0 || bits(encoding, 4, 4) != 0 {
        return unallocated(encoding);
    }

    let width = RegWidth::from_sf(bits(encoding, 31, 31) == 1);
    let cond = Cond::from_bits(byte_field(encoding, 15, 12));
    let nzcv = byte_field(encoding, 3, 0);
    let rn = Gpr::from_index_zr(register_field(encoding, 5));
    let is_immediate = bits(encoding, 11, 11) == 1;

    let form = if is_immediate {
        Form::CondCompare { rn, imm: wide_field(encoding, 20, 16), nzcv, cond }
    } else {
        Form::CondSelect {
            // The comparison has no destination; the zero register is the only
            // honest thing to put here, and a write to it is discarded.
            rd: Gpr::ZR,
            rn,
            rm: Gpr::from_index_zr(register_field(encoding, 16)),
            cond,
        }
    };

    let op = if bits(encoding, 30, 30) == 1 { Op::Ccmp } else { Op::Ccmn };
    Instruction::new(encoding, op, form).with_width(width).setting_flags()
}

/// Conditional select: `S` must be clear; bit 30 and bits 11..10 pick the
/// opcode, and bit 11 set is unallocated.
pub open spec fn spec_conditional_select(encoding: u32) -> Instruction {
    let negating = field(encoding, 30, 30);
    let o2 = field(encoding, 11, 10);
    if field(encoding, 29, 29) != 0 || o2 > 1 {
        unallocated(encoding)
    } else {
        let op = if negating == 0 {
            if o2 == 0 { Op::Csel } else { Op::Csinc }
        } else {
            if o2 == 0 { Op::Csinv } else { Op::Csneg }
        };
        let form = Form::CondSelect {
            rd: zr_at(encoding, 0),
            rn: zr_at(encoding, 5),
            rm: zr_at(encoding, 16),
            cond: Cond::from_bits(field(encoding, 15, 12) as u8),
        };
        Instruction::new(encoding, op, form).with_width(width_of(encoding))
    }
}

/// Conditional select: `CSEL`, `CSINC`, `CSINV`, `CSNEG`.
///
/// `CSET`, `CSETM`, `CINC`, `CINV` and `CNEG` are aliases of these with an
/// inverted condition or the zero register, so they decode as the base opcode.
fn conditional_select(encoding: u32) -> (r: Instruction)
    ensures
        r.operands_valid(),
        r == spec_conditional_select(encoding),
{
    // S (bit 29) is fixed at zero: none of these writes flags.
    let negating = bits(encoding, 30, 30);
    let o2 = bits(encoding, 11, 10);
    if bits(encoding, 29, 29) != 0 || o2 > 1 {
        return unallocated(encoding);
    }
    let op = if negating == 0 {
        if o2 == 0 { Op::Csel } else { Op::Csinc }
    } else {
        if o2 == 0 { Op::Csinv } else { Op::Csneg }
    };

    let form = Form::CondSelect {
        rd: Gpr::from_index_zr(register_field(encoding, 0)),
        rn: Gpr::from_index_zr(register_field(encoding, 5)),
        rm: Gpr::from_index_zr(register_field(encoding, 16)),
        cond: Cond::from_bits(bits(encoding, 15, 12) as u8),
    };
    Instruction::new(encoding, op, form).with_width(RegWidth::from_sf(bits(encoding, 31, 31) == 1))
}

/// The `op2 = 0110` row: `S` must be clear, and bit 30 splits the one-source
/// group from the two-source one.
pub open spec fn spec_two_source_or_one_source(encoding: u32) -> Instruction {
    if field(encoding, 29, 29) != 0 {
        unallocated(encoding)
    } else if field(encoding, 30, 30) == 1 {
        spec_one_source(encoding)
    } else {
        spec_two_source(encoding)
    }
}

/// The `op2 = 0110` row, which holds both the two-source and one-source groups.
///
/// Bit 30 splits them: the architecture reuses the row rather than spending an
/// `op2` value on a group with six members.
fn two_source_or_one_source(encoding: u32) -> (r: Instruction)
    ensures
        r.operands_valid(),
        r == spec_two_source_or_one_source(encoding),
{
    // S (bit 29) is fixed at zero throughout both groups.
    if bits(encoding, 29, 29) != 0 {
        return unallocated(encoding);
    }
    if bits(encoding, 30, 30) == 1 {
        one_source(encoding)
    } else {
        two_source(encoding)
    }
}

/// The two-source opcode table, by bits 15..10.
pub open spec fn two_source_op(opcode: u32) -> Option<Op> {
    if opcode == 2 { Some(Op::Udiv) }
    else if opcode == 3 { Some(Op::Sdiv) }
    else if opcode == 8 { Some(Op::Lslv) }
    else if opcode == 9 { Some(Op::Lsrv) }
    else if opcode == 10 { Some(Op::Asrv) }
    else if opcode == 11 { Some(Op::Rorv) }
    else { None }
}

/// Data processing (2 source): the opcode table; anything else is unallocated.
pub open spec fn spec_two_source(encoding: u32) -> Instruction {
    match two_source_op(field(encoding, 15, 10)) {
        Some(op) => Instruction::new(encoding, op, plain_register(encoding)).with_width(width_of(encoding)),
        None => unallocated(encoding),
    }
}

/// Data processing (2 source): the variable shifts and the divides.
///
/// `LSL`, `LSR`, `ASR` and `ROR` in their register-operand spelling are aliases
/// of `LSLV` and friends, so they carry no separate opcode. The remaining
/// opcodes are CRC32, `PACGA` and the MTE pointer forms, none of which this
/// machine advertises.
fn two_source(encoding: u32) -> (r: Instruction)
    ensures
        r.operands_valid(),
        r == spec_two_source(encoding),
{
    let width = RegWidth::from_sf(bits(encoding, 31, 31) == 1);
    let opcode = bits(encoding, 15, 10);
    let op = if opcode == 0b000010 {
        Op::Udiv
    } else if opcode == 0b000011 {
        Op::Sdiv
    } else if opcode == 0b001000 {
        Op::Lslv
    } else if opcode == 0b001001 {
        Op::Lsrv
    } else if opcode == 0b001010 {
        Op::Asrv
    } else if opcode == 0b001011 {
        Op::Rorv
    } else {
        return unallocated(encoding);
    };

    // The shift amount is the register operand's *value*, not a constant, so
    // the encoding has no shift field of its own.
    let form = unshifted_register(encoding);
    Instruction::new(encoding, op, form).with_width(width)
}

/// The one-source opcode table, by bits 15..10 and the width: `REV32` exists
/// only at 64 bits, and so does opcode 000011.
pub open spec fn one_source_op(opcode: u32, width: RegWidth) -> Option<Op> {
    if opcode == 0 { Some(Op::Rbit) }
    else if opcode == 1 { Some(Op::Rev16) }
    else if opcode == 2 { if width == RegWidth::X64 { Some(Op::Rev32) } else { Some(Op::Rev) } }
    else if opcode == 3 { if width == RegWidth::X64 { Some(Op::Rev) } else { None } }
    else if opcode == 4 { Some(Op::Clz) }
    else if opcode == 5 { Some(Op::Cls) }
    else { None }
}

/// Data processing (1 source): `opcode2` (bits 20..16) must be zero, and the
/// source is carried as an unshifted `Rm` repeating `Rn`.
pub open spec fn spec_one_source(encoding: u32) -> Instruction {
    let width = width_of(encoding);
    if field(encoding, 20, 16) != 0 {
        unallocated(encoding)
    } else {
        match one_source_op(field(encoding, 15, 10), width) {
            Some(op) => {
                let rn = zr_at(encoding, 5);
                let form = Form::RegShifted {
                    rd: zr_at(encoding, 0),
                    rn,
                    rm: ShiftedReg { reg: rn, kind: ShiftKind::Lsl, amount: 0 },
                };
                Instruction::new(encoding, op, form).with_width(width)
            },
            None => unallocated(encoding),
        }
    }
}

/// Data processing (1 source): `RBIT`, `REV16`, `REV32`, `REV`, `CLZ`, `CLS`.
///
/// These have one source, but no [`Form`] exists for that shape. They use
/// [`Form::RegShifted`] with `rm` repeating `rn`, which is what the bitfield
/// group already does for its unused second source.
fn one_source(encoding: u32) -> (r: Instruction)
    ensures
        r.operands_valid(),
        r == spec_one_source(encoding),
{
    let width = RegWidth::from_sf(bits(encoding, 31, 31) == 1);
    // `opcode2`, bits 20..16, selects the sub-group; only zero is allocated
    // outside pointer authentication, which is not advertised.
    if bits(encoding, 20, 16) != 0 {
        return unallocated(encoding);
    }

    let opcode = bits(encoding, 15, 10);
    let op = if opcode == 0b000000 {
        Op::Rbit
    } else if opcode == 0b000001 {
        Op::Rev16
    } else if opcode == 0b000010 {
        // `REV32` at 64 bits and `REV` at 32 bits share opcode 000010: a W
        // register's whole-register reverse *is* a 32-bit reverse.
        if width == RegWidth::X64 { Op::Rev32 } else { Op::Rev }
    } else if opcode == 0b000011 && width == RegWidth::X64 {
        // The 64-bit whole-register reverse; there is no 32-bit encoding of
        // it, because 000010 already covers that case.
        Op::Rev
    } else if opcode == 0b000100 {
        Op::Clz
    } else if opcode == 0b000101 {
        Op::Cls
    } else {
        return unallocated(encoding);
    };

    let rn = Gpr::from_index_zr(register_field(encoding, 5));
    let form = Form::RegShifted {
        rd: Gpr::from_index_zr(register_field(encoding, 0)),
        rn,
        rm: ShiftedReg { reg: rn, kind: ShiftKind::Lsl, amount: 0 },
    };
    Instruction::new(encoding, op, form).with_width(width)
}

/// The three-source opcode table, by width, `op31` (bits 23..21) and `o0`
/// (bit 15). The widening and high-half forms exist only at 64 bits.
pub open spec fn three_source_op(width: RegWidth, op31: u32, o0: u32) -> Option<Op> {
    if op31 == 0 {
        if o0 == 0 { Some(Op::Madd) } else { Some(Op::Msub) }
    } else if width != RegWidth::X64 {
        None
    } else if op31 == 1 {
        if o0 == 0 { Some(Op::Smaddl) } else { Some(Op::Smsubl) }
    } else if op31 == 2 && o0 == 0 {
        Some(Op::Smulh)
    } else if op31 == 5 {
        if o0 == 0 { Some(Op::Umaddl) } else { Some(Op::Umsubl) }
    } else if op31 == 6 && o0 == 0 {
        Some(Op::Umulh)
    } else {
        None
    }
}

/// Data processing (3 source): `op54` (bits 30..29) must be zero.
pub open spec fn spec_three_source(encoding: u32) -> Instruction {
    let width = width_of(encoding);
    if field(encoding, 30, 29) != 0 {
        unallocated(encoding)
    } else {
        match three_source_op(width, field(encoding, 23, 21), field(encoding, 15, 15)) {
            Some(op) => {
                let form = Form::ThreeSource {
                    rd: zr_at(encoding, 0),
                    rn: zr_at(encoding, 5),
                    rm: zr_at(encoding, 16),
                    ra: zr_at(encoding, 10),
                };
                Instruction::new(encoding, op, form).with_width(width)
            },
            None => unallocated(encoding),
        }
    }
}

/// Data processing (3 source): the multiply-accumulate family.
///
/// `MUL`, `MNEG`, `SMULL`, `UMULL`, `SMNEGL` and `UMNEGL` are aliases with the
/// zero register as the addend, so they decode as the accumulating opcode.
/// `SMULH` and `UMULH` have no addend; their `Ra` field is "should be one", so
/// any value decodes and the interpreter ignores it.
fn three_source(encoding: u32) -> (r: Instruction)
    ensures
        r.operands_valid(),
        r == spec_three_source(encoding),
{
    let width = RegWidth::from_sf(bits(encoding, 31, 31) == 1);
    // `op54`, bits 30..29, is zero for every allocated three-source encoding.
    if bits(encoding, 30, 29) != 0 {
        return unallocated(encoding);
    }
    let op31 = bits(encoding, 23, 21);
    let o0 = bits(encoding, 15, 15);

    let op = if op31 == 0b000 {
        if o0 == 0 { Op::Madd } else { Op::Msub }
    } else if width != RegWidth::X64 {
        // The widening and high-half forms read W registers and write an X,
        // which a 32-bit encoding cannot express.
        return unallocated(encoding);
    } else if op31 == 0b001 {
        if o0 == 0 { Op::Smaddl } else { Op::Smsubl }
    } else if op31 == 0b010 && o0 == 0 {
        Op::Smulh
    } else if op31 == 0b101 {
        if o0 == 0 { Op::Umaddl } else { Op::Umsubl }
    } else if op31 == 0b110 && o0 == 0 {
        Op::Umulh
    } else {
        return unallocated(encoding);
    };
    let form = Form::ThreeSource {
        rd: Gpr::from_index_zr(register_field(encoding, 0)),
        rn: Gpr::from_index_zr(register_field(encoding, 5)),
        rm: Gpr::from_index_zr(register_field(encoding, 16)),
        ra: Gpr::from_index_zr(register_field(encoding, 10)),
    };
    Instruction::new(encoding, op, form).with_width(width)
}

/// The add/sub tail: bit 30 selects `SUB`, bit 29 sets flags.
pub open spec fn spec_finish_arithmetic(encoding: u32, form: Form, width: RegWidth) -> Instruction {
    let op = if field(encoding, 30, 30) == 1 { Op::Sub } else { Op::Add };
    flagged(Instruction::new(encoding, op, form).with_width(width), field(encoding, 29, 29) == 1)
}

/// Shared tail of the two add/sub register forms.
fn finish_arithmetic(encoding: u32, form: Form, width: RegWidth) -> (r: Instruction)
    requires
        form.registers_valid(width),
    ensures
        r.operands_valid(),
        r == spec_finish_arithmetic(encoding, form, width),
{
    let op = if bits(encoding, 30, 30) == 1 { Op::Sub } else { Op::Add };
    let insn = Instruction::new(encoding, op, form).with_width(width);
    if bits(encoding, 29, 29) == 1 {
        insn.setting_flags()
    } else {
        insn
    }
}

/// Decodes the 2-bit `shift` field of a data-processing (register) encoding.
#[verifier::allow_in_spec]
pub fn shift_kind(field: u32) -> (r: ShiftKind)
    returns
        (if field % 4 == 0 {
            ShiftKind::Lsl
        } else if field % 4 == 1 {
            ShiftKind::Lsr
        } else if field % 4 == 2 {
            ShiftKind::Asr
        } else {
            ShiftKind::Ror
        }),
{
    if field % 4 == 0 {
        ShiftKind::Lsl
    } else if field % 4 == 1 {
        ShiftKind::Lsr
    } else if field % 4 == 2 {
        ShiftKind::Asr
    } else {
        ShiftKind::Ror
    }
}

} // verus!
