//! Scalar floating-point: `op0 = x111` with bit 28 set.
//!
//! The family is chosen by bit 24, bit 21 and then by bits 11..10, exactly as
//! the ARM ARM's "Floating-point data-processing" tables do: `11` is the
//! conditional select, `10` two sources, `01` the conditional compares, `00`
//! the compares, the one-source group and the immediate move.
use vstd::prelude::*;
use vstd::arithmetic::power2::lemma2_to64;
use crate::decode::field::{bits, byte_field, field, register_field};
use crate::decode::instruction::{unallocated, Form, Instruction};
use crate::decode::op::Op;
use crate::decode::operand::{Cond, ElemSize, RegWidth, RoundMode, VecOperand, VecShape};
use crate::reg::{Gpr, Vec};

verus! {

/// Decodes the 2-bit `ftype` field, which is not [`ElemSize::from_size`]'s
/// encoding: `01` is double and `11` is half, and `10` names no format.
#[verifier::allow_in_spec]
pub fn float_size(ftype: u32) -> (r: Option<ElemSize>)
    returns
        (if ftype == 0 {
            Some(ElemSize::S32)
        } else if ftype == 1 {
            Some(ElemSize::D64)
        } else if ftype == 3 {
            Some(ElemSize::H16)
        } else {
            None
        }),
{
    if ftype == 0b00 {
        Some(ElemSize::S32)
    } else if ftype == 0b01 {
        Some(ElemSize::D64)
    } else if ftype == 0b11 {
        Some(ElemSize::H16)
    } else {
        None
    }
}

/// A scalar operand of register `index`, of the given width.
pub open spec fn scalar_at(index: u32, size: ElemSize) -> VecOperand {
    VecOperand { reg: Vec::at(index as u8), shape: VecShape::Scalar(size) }
}

/// A scalar operand of the given width.
fn scalar(index: u8, size: ElemSize) -> (r: VecOperand)
    requires
        index < 32,
    ensures
        r == scalar_at(index as u32, size),
{
    VecOperand { reg: Vec::new(index), shape: VecShape::Scalar(size) }
}

/// The scalar FP table: `S` (bit 29) must be clear; with bit 24 clear, bit 21
/// clear is the fixed-point conversions and bit 21 set with bits 15..10 clear
/// the integer ones, both of which read bit 31 as `sf` and decode before
/// `ftype`; every other family requires bit 31 clear and a valid `ftype`.
pub open spec fn spec_data_processing(encoding: u32) -> Instruction {
    let is_three_source = field(encoding, 24, 24) == 1;
    let is_fixed_point = !is_three_source && field(encoding, 21, 21) == 0;
    let is_integer_conversion = !is_three_source && field(encoding, 21, 21) == 1 && field(encoding, 15, 10) == 0;
    if field(encoding, 29, 29) == 1 {
        unallocated(encoding)
    } else if field(encoding, 31, 31) == 1 && !(is_fixed_point || is_integer_conversion) {
        unallocated(encoding)
    } else if is_fixed_point {
        spec_fixed_point_conversion(encoding)
    } else if is_integer_conversion {
        spec_integer_conversion(encoding)
    } else {
        match float_size(field(encoding, 23, 22)) {
            None => unallocated(encoding),
            Some(size) => if is_three_source {
                spec_three_source(encoding, size)
            } else {
                let family = field(encoding, 11, 10);
                if family == 0 {
                    spec_compare_or_one_source(encoding, size)
                } else if family == 1 {
                    spec_conditional_compare(encoding, size)
                } else if family == 2 {
                    spec_two_source(encoding, size)
                } else {
                    spec_conditional_select(encoding, size)
                }
            },
        }
    }
}

/// `op0 = x111`, bit 28 set — scalar FP, including the conversions to and
/// from the general-purpose registers.
pub fn data_processing(encoding: u32) -> (r: Instruction)
    ensures
        r.operands_valid(),
        r == spec_data_processing(encoding),
{
    proof { lemma2_to64(); }
    // S = 1 is unallocated across the whole group. Bit 31 is not reserved: it
    // is `sf` for the conversions to and from a general-purpose register, and
    // is checked there. For every other family it must be clear.
    if bits(encoding, 29, 29) == 1 {
        return unallocated(encoding);
    }
    // Bit 24 separates the three-source group (FMADD and friends) from the
    // rest, and it is the only family that uses `Ra`.
    let is_three_source = bits(encoding, 24, 24) == 1;
    // With bit 24 clear, bit 21 clear is the fixed-point conversion family and
    // bits 15..10 all clear alongside bit 21 set is the integer one.
    let is_fixed_point = !is_three_source && bits(encoding, 21, 21) == 0;
    let is_integer_conversion =
        !is_three_source && bits(encoding, 21, 21) == 1 && bits(encoding, 15, 10) == 0;

    if bits(encoding, 31, 31) == 1 && !(is_fixed_point || is_integer_conversion) {
        return unallocated(encoding);
    }
    // Both conversion families are decoded before `ftype` is resolved: the
    // high-half FMOV uses ftype = 10, which names no format and so would
    // otherwise be rejected as an unallocated size.
    if is_fixed_point {
        return fixed_point_conversion(encoding);
    }
    if is_integer_conversion {
        return integer_conversion(encoding);
    }

    let size = match float_size(bits(encoding, 23, 22)) {
        Some(size) => size,
        None => return unallocated(encoding),
    };
    if is_three_source {
        return three_source(encoding, size);
    }

    let family = bits(encoding, 11, 10);
    if family == 0b00 {
        compare_or_one_source(encoding, size)
    } else if family == 0b01 {
        conditional_compare(encoding, size)
    } else if family == 0b10 {
        two_source(encoding, size)
    } else {
        conditional_select(encoding, size)
    }
}

/// The three-source table: `o1` (bit 21) selects the negated pair and `o0`
/// (bit 15) the subtracting one.
pub open spec fn spec_three_source(encoding: u32, size: ElemSize) -> Instruction {
    let op = if field(encoding, 21, 21) == 0 {
        if field(encoding, 15, 15) == 0 { Op::Fmadd } else { Op::Fmsub }
    } else {
        if field(encoding, 15, 15) == 0 { Op::Fnmadd } else { Op::Fnmsub }
    };
    Instruction::new(encoding, op, Form::VecData {
        vd: scalar_at(field(encoding, 4, 0), size),
        vn: scalar_at(field(encoding, 9, 5), size),
        vm: Some(scalar_at(field(encoding, 20, 16), size)),
        va: Some(scalar_at(field(encoding, 14, 10), size)),
    })
}

/// `FMADD`, `FMSUB`, `FNMADD`, `FNMSUB` — the only forms with four registers.
fn three_source(encoding: u32, size: ElemSize) -> (r: Instruction)
    ensures
        r.operands_valid(),
        r == spec_three_source(encoding, size),
{
    // o1 selects the negated pair, o0 the subtracting one.
    let op = if bits(encoding, 21, 21) == 0 {
        if bits(encoding, 15, 15) == 0 { Op::Fmadd } else { Op::Fmsub }
    } else {
        if bits(encoding, 15, 15) == 0 { Op::Fnmadd } else { Op::Fnmsub }
    };

    let form = Form::VecData {
        vd: scalar(register_field(encoding, 0), size),
        vn: scalar(register_field(encoding, 5), size),
        vm: Some(scalar(register_field(encoding, 16), size)),
        va: Some(scalar(register_field(encoding, 10), size)),
    };
    Instruction::new(encoding, op, form)
}

/// The two-source opcode table, by bits 15..12.
pub open spec fn two_source_op(opcode: u32) -> Option<Op> {
    if opcode == 0 { Some(Op::Fmul) }
    else if opcode == 1 { Some(Op::Fdiv) }
    else if opcode == 2 { Some(Op::Fadd) }
    else if opcode == 3 { Some(Op::Fsub) }
    else if opcode == 4 { Some(Op::Fmax) }
    else if opcode == 5 { Some(Op::Fmin) }
    else if opcode == 6 { Some(Op::Fmaxnm) }
    else if opcode == 7 { Some(Op::Fminnm) }
    else if opcode == 8 { Some(Op::Fnmul) }
    else { None }
}

/// Two sources, by [`two_source_op`]; unknown opcodes are unallocated.
pub open spec fn spec_two_source(encoding: u32, size: ElemSize) -> Instruction {
    match two_source_op(field(encoding, 15, 12)) {
        None => unallocated(encoding),
        Some(op) => Instruction::new(encoding, op, Form::VecData {
            vd: scalar_at(field(encoding, 4, 0), size),
            vn: scalar_at(field(encoding, 9, 5), size),
            vm: Some(scalar_at(field(encoding, 20, 16), size)),
            va: None,
        }),
    }
}

/// Two-source arithmetic: `FMUL`, `FDIV`, `FADD`, `FSUB`, the extrema, and
/// `FNMUL`.
fn two_source(encoding: u32, size: ElemSize) -> (r: Instruction)
    ensures
        r.operands_valid(),
        r == spec_two_source(encoding, size),
{
    let opcode = bits(encoding, 15, 12);
    let op = if opcode == 0b0000 {
        Op::Fmul
    } else if opcode == 0b0001 {
        Op::Fdiv
    } else if opcode == 0b0010 {
        Op::Fadd
    } else if opcode == 0b0011 {
        Op::Fsub
    } else if opcode == 0b0100 {
        Op::Fmax
    } else if opcode == 0b0101 {
        Op::Fmin
    } else if opcode == 0b0110 {
        Op::Fmaxnm
    } else if opcode == 0b0111 {
        Op::Fminnm
    } else if opcode == 0b1000 {
        Op::Fnmul
    } else {
        return unallocated(encoding);
    };

    let form = Form::VecData {
        vd: scalar(register_field(encoding, 0), size),
        vn: scalar(register_field(encoding, 5), size),
        vm: Some(scalar(register_field(encoding, 16), size)),
        va: None,
    };
    Instruction::new(encoding, op, form)
}

/// `FCSEL` with the condition in bits 15..12.
pub open spec fn spec_conditional_select(encoding: u32, size: ElemSize) -> Instruction {
    Instruction::new(encoding, Op::Fcsel, Form::VecCond {
        vd: scalar_at(field(encoding, 4, 0), size),
        vn: scalar_at(field(encoding, 9, 5), size),
        vm: scalar_at(field(encoding, 20, 16), size),
        cond: Cond::from_bits(byte_field(encoding, 15, 12)),
    })
}

/// `FCSEL`.
fn conditional_select(encoding: u32, size: ElemSize) -> (r: Instruction)
    ensures
        r.operands_valid(),
        r == spec_conditional_select(encoding, size),
{
    let form = Form::VecCond {
        vd: scalar(register_field(encoding, 0), size),
        vn: scalar(register_field(encoding, 5), size),
        vm: scalar(register_field(encoding, 16), size),
        cond: Cond::from_bits(byte_field(encoding, 15, 12)),
    };
    Instruction::new(encoding, Op::Fcsel, form)
}

/// `FCCMP`/`FCCMPE`: bit 4 selects the signalling form and bits 3..0 are the
/// NZCV to substitute.
pub open spec fn spec_conditional_compare(encoding: u32, size: ElemSize) -> Instruction {
    let op = if field(encoding, 4, 4) == 1 { Op::Fccmpe } else { Op::Fccmp };
    Instruction::new(encoding, op, Form::VecCondCompare {
        vn: scalar_at(field(encoding, 9, 5), size),
        vm: scalar_at(field(encoding, 20, 16), size),
        nzcv: byte_field(encoding, 3, 0),
        cond: Cond::from_bits(byte_field(encoding, 15, 12)),
    })
}

/// The opcode of a conditional compare, chosen by its signalling bit.
fn conditional_compare_op(encoding: u32) -> (r: Op)
    ensures
        r == (if field(encoding, 4, 4) == 1 { Op::Fccmpe } else { Op::Fccmp }),
{
    if bits(encoding, 4, 4) == 1 {
        Op::Fccmpe
    } else {
        Op::Fccmp
    }
}

/// `FCCMP` and `FCCMPE`.
fn conditional_compare(encoding: u32, size: ElemSize) -> (r: Instruction)
    ensures
        r.operands_valid(),
        r == spec_conditional_compare(encoding, size),
{
    // Bit 4 selects the signalling form; the other four bits are the NZCV to
    // substitute, so they are not a register.
    let op = conditional_compare_op(encoding);
    let form = Form::VecCondCompare {
        vn: scalar(register_field(encoding, 5), size),
        vm: scalar(register_field(encoding, 16), size),
        nzcv: byte_field(encoding, 3, 0),
        cond: Cond::from_bits(byte_field(encoding, 15, 12)),
    };
    Instruction::new(encoding, op, form)
}

/// Bits 14..10 are one-hot: `10000` one-source, `01000` compare, `00100` the
/// immediate move.
pub open spec fn spec_compare_or_one_source(encoding: u32, size: ElemSize) -> Instruction {
    let family = field(encoding, 14, 10);
    if family == 16 {
        spec_one_source(encoding, size)
    } else if family == 8 {
        spec_compare(encoding, size)
    } else if family == 4 {
        spec_move_immediate(encoding, size)
    } else {
        unallocated(encoding)
    }
}

/// Bits 11..10 = `00`: a compare, a one-source operation, or the immediate
/// move, split by bits 14..10.
///
/// The three families sit at `10000`, `01000` and `00100` — a one-hot field, so
/// the bit that is set names the family.
fn compare_or_one_source(encoding: u32, size: ElemSize) -> (r: Instruction)
    ensures
        r.operands_valid(),
        r == spec_compare_or_one_source(encoding, size),
{
    let family = bits(encoding, 14, 10);
    if family == 0b10000 {
        one_source(encoding, size)
    } else if family == 0b01000 {
        compare(encoding, size)
    } else if family == 0b00100 {
        move_immediate(encoding, size)
    } else {
        unallocated(encoding)
    }
}

/// `FCMP`/`FCMPE`: `opcode2` (bits 4..0) has its low three bits clear, bit 4
/// selecting the signalling form and bit 3 the compare with zero, which must
/// name no `Rm`.
pub open spec fn spec_compare(encoding: u32, size: ElemSize) -> Instruction {
    let opcode2 = field(encoding, 4, 0);
    let rm = field(encoding, 20, 16);
    let is_zero_form = field(encoding, 3, 3) == 1;
    if field(encoding, 2, 0) != 0 || (is_zero_form && rm != 0) {
        unallocated(encoding)
    } else {
        let op = if field(encoding, 4, 4) == 1 { Op::Fcmpe } else { Op::Fcmp };
        Instruction::new(encoding, op, Form::VecCompare {
            vn: scalar_at(field(encoding, 9, 5), size),
            vm: if is_zero_form { None } else { Some(scalar_at(rm, size)) },
        })
    }
}

/// `FCMP`, `FCMPE`, and their compare-with-zero forms.
///
/// `opcode2` occupies the Rd slot: bit 4 selects the signalling form and bit 3
/// the compare with zero, so neither is a destination register. Reading those
/// five bits as an Rd would invent a write.
fn compare(encoding: u32, size: ElemSize) -> (r: Instruction)
    ensures
        r.operands_valid(),
        r == spec_compare(encoding, size),
{
    let is_zero_form = bits(encoding, 3, 3) == 1;
    if bits(encoding, 2, 0) != 0 {
        return unallocated(encoding);
    }
    // The zero forms name no second register, so a non-zero Rm is unallocated.
    if is_zero_form && bits(encoding, 20, 16) != 0 {
        return unallocated(encoding);
    }
    let op = if bits(encoding, 4, 4) == 1 { Op::Fcmpe } else { Op::Fcmp };

    let vm = if is_zero_form {
        None
    } else {
        Some(scalar(register_field(encoding, 16), size))
    };
    let form = Form::VecCompare { vn: scalar(register_field(encoding, 5), size), vm };
    Instruction::new(encoding, op, form)
}

/// `FMOV #imm`: bits 9..5 are RES0 and the immediate is `VFPExpandImm` of bits
/// 20..13.
pub open spec fn spec_move_immediate(encoding: u32, size: ElemSize) -> Instruction {
    if field(encoding, 9, 5) != 0 {
        unallocated(encoding)
    } else {
        let vd = scalar_at(field(encoding, 4, 0), size);
        Instruction::new(encoding, Op::FmovImm, Form::VecImm {
            vd,
            vn: vd,
            imm: expand_float_immediate(byte_field(encoding, 20, 13), size),
        })
    }
}

/// `FMOV #imm` — the 8-bit immediate expands to a full float.
fn move_immediate(encoding: u32, size: ElemSize) -> (r: Instruction)
    ensures
        r.operands_valid(),
        r == spec_move_immediate(encoding, size),
{
    // Bits 9..5 are RES0 in this encoding, below the immediate.
    if bits(encoding, 9, 5) != 0 {
        return unallocated(encoding);
    }

    let imm8 = byte_field(encoding, 20, 13);
    let vd = scalar(register_field(encoding, 0), size);
    let form = Form::VecImm { vd, vn: vd, imm: expand_float_immediate(imm8, size) };
    Instruction::new(encoding, Op::FmovImm, form)
}

/// `VFPExpandImm`: an 8-bit `abcdefgh` becomes the float
/// `a : NOT(b) : b..b : cd : efgh : 0..0`, with `b` repeated to fill the
/// exponent, at half, single (the default) or double width.
#[verifier::allow_in_spec]
pub fn expand_float_immediate(imm8: u8, size: ElemSize) -> (r: u64)
    returns
        (match size {
            ElemSize::H16 => expand_float_immediate_at(imm8, 5, 10),
            ElemSize::D64 => expand_float_immediate_at(imm8, 11, 52),
            _ => expand_float_immediate_at(imm8, 8, 23),
        }),
{
    match size {
        ElemSize::H16 => expand_float_immediate_at(imm8, 5, 10),
        ElemSize::D64 => expand_float_immediate_at(imm8, 11, 52),
        _ => expand_float_immediate_at(imm8, 8, 23),
    }
}

/// `VFPExpandImm` into a format with the given exponent and mantissa widths.
#[verifier::allow_in_spec]
pub fn expand_float_immediate_at(imm8: u8, exponent_bits: u32, mantissa_bits: u32) -> (r: u64)
    requires
        5 <= exponent_bits <= 11,
        10 <= mantissa_bits <= 52,
    returns
        ((((imm8 / 128) as u64) << (exponent_bits + mantissa_bits))
            | (((if (imm8 / 64) % 2 == 1 {
                ((((1u64 << (exponent_bits - 3)) - 1) as u64) << 2u64) | (((imm8 / 16) % 4) as u64)
            } else {
                (1u64 << (exponent_bits - 1)) | (((imm8 / 16) % 4) as u64)
            }) as u64) << mantissa_bits)
            | ((((imm8 % 16) as u64) << (mantissa_bits - 4)) as u64)) as u64,
{
    let sign = (imm8 / 128) as u64;
    let mantissa = (imm8 % 16) as u64;
    let exponent_low = ((imm8 / 16) % 4) as u64;
    // The exponent is `NOT(b) : b repeated : cd`, which is what makes the
    // immediate span a small range around 1.0 rather than the whole exponent.
    let exponent = if (imm8 / 64) % 2 == 1 {
        let k = exponent_bits - 3;
        assert(1u64 << k >= 1) by (bit_vector)
            requires k < 64;
        (((1u64 << k) - 1) << 2u64) | exponent_low
    } else {
        (1u64 << (exponent_bits - 1)) | exponent_low
    };

    (sign << (exponent_bits + mantissa_bits)) | (exponent << mantissa_bits) | (mantissa << (mantissa_bits - 4))
}

/// The one-source opcode table, by bits 20..15: the move, the sign
/// operations, the square root, the conversions (whose low two bits name the
/// target format) and the `FRINT` family with its rounding.
pub open spec fn spec_one_source(encoding: u32, size: ElemSize) -> Instruction {
    let opcode = field(encoding, 20, 15);
    let decoded: Option<(Op, RoundMode, Option<ElemSize>)> =
        if opcode == 0 { Some((Op::Fmov, RoundMode::Current, None)) }
        else if opcode == 1 { Some((Op::Fabs, RoundMode::Current, None)) }
        else if opcode == 2 { Some((Op::Fneg, RoundMode::Current, None)) }
        else if opcode == 3 { Some((Op::Fsqrt, RoundMode::Current, None)) }
        else if opcode == 4 || opcode == 5 || opcode == 7 {
            match float_size(opcode % 4) {
                Some(target) => if target == size { None } else { Some((Op::Fcvt, RoundMode::Current, Some(target))) },
                None => None,
            }
        }
        else if opcode == 8 { Some((Op::Frint, RoundMode::Nearest, None)) }
        else if opcode == 9 { Some((Op::Frint, RoundMode::Plus, None)) }
        else if opcode == 10 { Some((Op::Frint, RoundMode::Minus, None)) }
        else if opcode == 11 { Some((Op::Frint, RoundMode::Zero, None)) }
        else if opcode == 12 { Some((Op::Frint, RoundMode::NearestAway, None)) }
        else if opcode == 14 || opcode == 15 { Some((Op::Frint, RoundMode::Current, None)) }
        else { None };
    match decoded {
        None => unallocated(encoding),
        Some((op, round, target)) => Instruction::new(encoding, op, Form::VecData {
            vd: scalar_at(field(encoding, 4, 0), match target { Some(t) => t, None => size }),
            vn: scalar_at(field(encoding, 9, 5), size),
            vm: None,
            va: None,
        }).with_round(round),
    }
}

/// One-source: `FMOV`, `FABS`, `FNEG`, `FSQRT`, `FCVT` and the `FRINT` family.
fn one_source(encoding: u32, size: ElemSize) -> (r: Instruction)
    ensures
        r.operands_valid(),
        r == spec_one_source(encoding, size),
{
    let opcode = bits(encoding, 20, 15);

    let (op, round, target): (Op, RoundMode, Option<ElemSize>) = if opcode == 0b000000 {
        (Op::Fmov, RoundMode::Current, None)
    } else if opcode == 0b000001 {
        (Op::Fabs, RoundMode::Current, None)
    } else if opcode == 0b000010 {
        (Op::Fneg, RoundMode::Current, None)
    } else if opcode == 0b000011 {
        (Op::Fsqrt, RoundMode::Current, None)
    } else if opcode == 0b000100 || opcode == 0b000101 || opcode == 0b000111 {
        // The convert forms name their target in the low two bits of the
        // opcode, and converting to the source's own size is unallocated.
        let target = match float_size(opcode % 4) {
            Some(target) => target,
            None => return unallocated(encoding),
        };
        if target == size {
            return unallocated(encoding);
        }
        (Op::Fcvt, RoundMode::Current, Some(target))
    } else if opcode == 0b001000 {
        (Op::Frint, RoundMode::Nearest, None)
    } else if opcode == 0b001001 {
        (Op::Frint, RoundMode::Plus, None)
    } else if opcode == 0b001010 {
        (Op::Frint, RoundMode::Minus, None)
    } else if opcode == 0b001011 {
        (Op::Frint, RoundMode::Zero, None)
    } else if opcode == 0b001100 {
        (Op::Frint, RoundMode::NearestAway, None)
    } else if opcode == 0b001110 || opcode == 0b001111 {
        // FRINTX and FRINTI both round in FPCR's mode; they differ only in
        // whether an inexact result raises, which is not a decode question.
        (Op::Frint, RoundMode::Current, None)
    } else {
        return unallocated(encoding);
    };

    let destination_size = match target {
        Some(target) => target,
        None => size,
    };
    let form = Form::VecData {
        vd: scalar(register_field(encoding, 0), destination_size),
        vn: scalar(register_field(encoding, 5), size),
        vm: None,
        va: None,
    };
    Instruction::new(encoding, op, form).with_round(round)
}

/// What a conversion's `rmode:opcode` names.
#[derive(Clone, Copy, PartialEq, Eq, Structural)]
pub struct ConversionKind {
    /// The opcode.
    pub op: Op,
    /// The rounding it applies.
    pub round: RoundMode,
    /// Whether the general-purpose register is the destination.
    pub is_to_gpr: bool,
}

/// The `rmode:opcode` table of the integer conversions.
pub open spec fn spec_conversion_kind(rmode: u32, opcode: u32) -> Option<ConversionKind> {
    if opcode <= 1 {
        let is_signed = opcode == 0;
        if rmode == 3 {
            Some(ConversionKind { op: if is_signed { Op::Fcvtzs } else { Op::Fcvtzu }, round: RoundMode::Zero, is_to_gpr: true })
        } else {
            Some(ConversionKind {
                op: if is_signed { Op::Fcvts } else { Op::Fcvtu },
                round: if rmode == 0 { RoundMode::Nearest } else if rmode == 1 { RoundMode::Plus } else { RoundMode::Minus },
                is_to_gpr: true,
            })
        }
    } else if rmode == 0 && (opcode == 2 || opcode == 3) {
        Some(ConversionKind { op: if opcode == 2 { Op::Scvtf } else { Op::Ucvtf }, round: RoundMode::Current, is_to_gpr: false })
    } else if rmode == 0 && (opcode == 4 || opcode == 5) {
        Some(ConversionKind { op: if opcode == 4 { Op::Fcvts } else { Op::Fcvtu }, round: RoundMode::NearestAway, is_to_gpr: true })
    } else if rmode <= 1 && (opcode == 6 || opcode == 7) {
        Some(ConversionKind { op: if opcode == 6 { Op::FmovFromVec } else { Op::FmovToVec }, round: RoundMode::Current, is_to_gpr: opcode == 6 })
    } else {
        None
    }
}

/// Decodes `rmode` and `opcode` together.
///
/// `opcode` 000/001 are the FP-to-integer conversions and take their rounding
/// from `rmode` — so `FCVTZS` is `rmode = 11` rather than an opcode of its own,
/// and `FCVTNS`, `FCVTPS`, `FCVTMS` are the other three values. `FCVTAS` and
/// `FCVTAU` round to nearest-with-ties-away, which `rmode` cannot express, so
/// those get opcodes 100/101 instead. Everything else ignores `rmode`.
fn conversion_kind(rmode: u32, opcode: u32) -> (r: Option<ConversionKind>)
    ensures
        r == spec_conversion_kind(rmode, opcode),
{
    if opcode <= 0b001 {
        let is_signed = opcode == 0b000;
        if rmode == 0b11 {
            // Round toward zero has its own opcodes because the interpreter
            // reaches them from the fixed-point forms too.
            let op = if is_signed { Op::Fcvtzs } else { Op::Fcvtzu };
            return Some(ConversionKind { op, round: RoundMode::Zero, is_to_gpr: true });
        }
        let op = if is_signed { Op::Fcvts } else { Op::Fcvtu };
        let round = if rmode == 0b00 {
            RoundMode::Nearest
        } else if rmode == 0b01 {
            RoundMode::Plus
        } else {
            RoundMode::Minus
        };
        return Some(ConversionKind { op, round, is_to_gpr: true });
    }
    if rmode == 0b00 && (opcode == 0b010 || opcode == 0b011) {
        let op = if opcode == 0b010 { Op::Scvtf } else { Op::Ucvtf };
        return Some(ConversionKind { op, round: RoundMode::Current, is_to_gpr: false });
    }
    if rmode == 0b00 && (opcode == 0b100 || opcode == 0b101) {
        let op = if opcode == 0b100 { Op::Fcvts } else { Op::Fcvtu };
        return Some(ConversionKind { op, round: RoundMode::NearestAway, is_to_gpr: true });
    }
    // rmode 00 is the scalar transfer; rmode 01 the high-half one, which only
    // exists for the 128-bit form.
    if rmode <= 0b01 && (opcode == 0b110 || opcode == 0b111) {
        let op = if opcode == 0b110 { Op::FmovFromVec } else { Op::FmovToVec };
        return Some(ConversionKind { op, round: RoundMode::Current, is_to_gpr: opcode == 0b110 });
    }
    None
}

/// The integer conversions: the kind comes from `rmode:opcode`; the `FMOV`
/// transfers resolve their own operand; everything else needs a valid
/// `ftype`.
pub open spec fn spec_integer_conversion(encoding: u32) -> Instruction {
    let width = RegWidth::from_sf(field(encoding, 31, 31) == 1);
    match spec_conversion_kind(field(encoding, 20, 19), field(encoding, 18, 16)) {
        None => unallocated(encoding),
        Some(kind) => if kind.op == Op::FmovFromVec || kind.op == Op::FmovToVec {
            spec_move_between_files(encoding, width, kind)
        } else {
            match float_size(field(encoding, 23, 22)) {
                None => unallocated(encoding),
                Some(size) => {
                    let rd = field(encoding, 4, 0);
                    let rn = field(encoding, 9, 5);
                    let form = if kind.is_to_gpr {
                        Form::VecGprMove { gpr: Gpr::from_index_zr(rd as u8), vec: scalar_at(rn, size) }
                    } else {
                        Form::VecGprMove { gpr: Gpr::from_index_zr(rn as u8), vec: scalar_at(rd, size) }
                    };
                    Instruction::new(encoding, kind.op, form).with_width(width).with_round(kind.round)
                },
            }
        },
    }
}

/// `FCVTZS`/`SCVTF` and friends between a scalar and a general-purpose
/// register.
fn integer_conversion(encoding: u32) -> (r: Instruction)
    ensures
        r.operands_valid(),
        r == spec_integer_conversion(encoding),
{
    let width = RegWidth::from_sf(bits(encoding, 31, 31) == 1);
    let rmode = bits(encoding, 20, 19);
    let opcode = bits(encoding, 18, 16);

    let kind = match conversion_kind(rmode, opcode) {
        Some(kind) => kind,
        None => return unallocated(encoding),
    };
    // The FMOV transfers are shaped differently and accept the ftype the other
    // conversions reject, so they resolve their own operand size.
    if kind.op == Op::FmovFromVec || kind.op == Op::FmovToVec {
        return move_between_files(encoding, width, kind);
    }

    let size = match float_size(bits(encoding, 23, 22)) {
        Some(size) => size,
        None => return unallocated(encoding),
    };

    let rd = register_field(encoding, 0);
    let rn = register_field(encoding, 5);
    let form = if kind.is_to_gpr {
        Form::VecGprMove { gpr: Gpr::from_index_zr(rd), vec: scalar(rn, size) }
    } else {
        Form::VecGprMove { gpr: Gpr::from_index_zr(rn), vec: scalar(rd, size) }
    };
    Instruction::new(encoding, kind.op, form).with_width(width).with_round(kind.round)
}

/// The `FMOV` transfers: `rmode = 01` is the high half of a Q register, which
/// needs `sf` and `ftype = 10`; the plain transfer needs a valid `ftype`
/// whose width agrees with `sf`.
pub open spec fn spec_move_between_files(encoding: u32, width: RegWidth, kind: ConversionKind) -> Instruction {
    let is_high_half = field(encoding, 20, 19) == 1;
    let ftype = field(encoding, 23, 22);
    if is_high_half && (width != RegWidth::X64 || ftype != 2) {
        unallocated(encoding)
    } else {
        let size: Option<ElemSize> = if is_high_half {
            Some(ElemSize::D64)
        } else {
            match float_size(ftype) {
                Some(size) => if (size == ElemSize::D64) == (width == RegWidth::X64) { Some(size) } else { None },
                None => None,
            }
        };
        match size {
            None => unallocated(encoding),
            Some(size) => {
                let shape = if is_high_half { VecShape::Element { elem: ElemSize::D64, index: 1 } } else { VecShape::Scalar(size) };
                let rd = field(encoding, 4, 0);
                let rn = field(encoding, 9, 5);
                let gpr_index = if kind.is_to_gpr { rd } else { rn };
                let vec_index = if kind.is_to_gpr { rn } else { rd };
                Instruction::new(encoding, kind.op, Form::VecGprMove {
                    gpr: Gpr::from_index_zr(gpr_index as u8),
                    vec: VecOperand { reg: Vec::at(vec_index as u8), shape },
                }).with_width(width)
            },
        }
    }
}

/// `FMOV` between a general-purpose register and a scalar or a vector's high
/// half.
fn move_between_files(encoding: u32, width: RegWidth, kind: ConversionKind) -> (r: Instruction)
    ensures
        r.operands_valid(),
        r == spec_move_between_files(encoding, width, kind),
{
    // rmode = 01 names the high half of a Q register, which exists only in the
    // 64-bit form and only with ftype = 10. Every other transfer is the plain
    // scalar one, whose two widths must agree: there is no encoding moving a
    // W register to or from a D scalar.
    let is_high_half = bits(encoding, 20, 19) == 0b01;
    let ftype = bits(encoding, 23, 22);
    if is_high_half && (width != RegWidth::X64 || ftype != 0b10) {
        return unallocated(encoding);
    }

    let size = if is_high_half {
        ElemSize::D64
    } else {
        match float_size(ftype) {
            Some(size) => {
                if (size == ElemSize::D64) != (width == RegWidth::X64) {
                    return unallocated(encoding);
                }
                size
            },
            None => return unallocated(encoding),
        }
    };

    let shape = if is_high_half {
        VecShape::Element { elem: ElemSize::D64, index: 1 }
    } else {
        VecShape::Scalar(size)
    };
    let rd = register_field(encoding, 0);
    let rn = register_field(encoding, 5);
    let (gpr_index, vec_index) = if kind.is_to_gpr { (rd, rn) } else { (rn, rd) };

    let form = Form::VecGprMove {
        gpr: Gpr::from_index_zr(gpr_index),
        vec: VecOperand { reg: Vec::new(vec_index), shape },
    };
    Instruction::new(encoding, kind.op, form).with_width(width)
}

/// The fixed-point conversions: a valid `ftype`; a 32-bit form cannot name
/// more than 32 fractional bits (`64 - scale`); only `FCVTZS`, `FCVTZU`,
/// `SCVTF` and `UCVTF` exist; all round toward zero.
pub open spec fn spec_fixed_point_conversion(encoding: u32) -> Instruction {
    match float_size(field(encoding, 23, 22)) {
        None => unallocated(encoding),
        Some(size) => {
            let width = RegWidth::from_sf(field(encoding, 31, 31) == 1);
            let fractional_bits = 64 - field(encoding, 15, 10);
            let rmode = field(encoding, 20, 19);
            let opcode = field(encoding, 18, 16);
            if width == RegWidth::W32 && fractional_bits > 32 {
                unallocated(encoding)
            } else if !((rmode == 3 && opcode <= 1) || (rmode == 0 && (opcode == 2 || opcode == 3))) {
                unallocated(encoding)
            } else {
                let op = if rmode == 3 { if opcode == 0 { Op::Fcvtzs } else { Op::Fcvtzu } } else { if opcode == 2 { Op::Scvtf } else { Op::Ucvtf } };
                let rd = field(encoding, 4, 0);
                let rn = field(encoding, 9, 5);
                let form = if rmode == 3 {
                    Form::VecGprMove { gpr: Gpr::from_index_zr(rd as u8), vec: scalar_at(rn, size) }
                } else {
                    Form::VecGprMove { gpr: Gpr::from_index_zr(rn as u8), vec: scalar_at(rd, size) }
                };
                Instruction::new(encoding, op, form).with_width(width).with_round(RoundMode::Zero)
            }
        },
    }
}

/// The fixed-point conversions, which scale by `2^fbits` around the
/// conversion.
fn fixed_point_conversion(encoding: u32) -> (r: Instruction)
    ensures
        r.operands_valid(),
        r == spec_fixed_point_conversion(encoding),
{
    proof { lemma2_to64(); }
    let size = match float_size(bits(encoding, 23, 22)) {
        Some(size) => size,
        None => return unallocated(encoding),
    };
    let width = RegWidth::from_sf(bits(encoding, 31, 31) == 1);
    let scale = bits(encoding, 15, 10);
    // `scale` counts down from 64, and a 32-bit form cannot name more than 32
    // fractional bits.
    let fractional_bits = 64 - scale;
    if width == RegWidth::W32 && fractional_bits > 32 {
        return unallocated(encoding);
    }

    let rmode = bits(encoding, 20, 19);
    let opcode = bits(encoding, 18, 16);
    // Only the round-toward-zero conversions and the integer-to-FP pair have
    // fixed-point forms.
    let (op, is_to_gpr) = if rmode == 0b11 && opcode == 0b000 {
        (Op::Fcvtzs, true)
    } else if rmode == 0b11 && opcode == 0b001 {
        (Op::Fcvtzu, true)
    } else if rmode == 0b00 && opcode == 0b010 {
        (Op::Scvtf, false)
    } else if rmode == 0b00 && opcode == 0b011 {
        (Op::Ucvtf, false)
    } else {
        return unallocated(encoding);
    };

    let rd = register_field(encoding, 0);
    let rn = register_field(encoding, 5);
    let form = if is_to_gpr {
        Form::VecGprMove { gpr: Gpr::from_index_zr(rd), vec: scalar(rn, size) }
    } else {
        Form::VecGprMove { gpr: Gpr::from_index_zr(rn), vec: scalar(rd, size) }
    };
    Instruction::new(encoding, op, form).with_width(width).with_round(RoundMode::Zero)
}

} // verus!
