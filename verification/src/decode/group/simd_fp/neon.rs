//! Advanced SIMD — the subset the string and memory routines of libc reach
//! for.
//!
//! Coverage is partial: what is here is what musl and glibc's `memcpy`,
//! `memset`, `strlen` and `memchr` reach for, plus a JIT baseline's. Anything
//! else returns `unallocated` and faults, and the trap log records it.
//!
//! The crypto encodings that share this space stay unallocated permanently:
//! the machine advertises no AES, SHA or PMULL, so they must fault exactly as
//! an unimplemented encoding does.
//!
//! [`super::data_processing_simd_fp`] does not route here: [`data_processing`]
//! is its own entry point.
use vstd::prelude::*;
use crate::decode::field::{bits, field, register_field};
use crate::decode::instruction::{unallocated, Form, Instruction};
use crate::decode::op::Op;
use crate::decode::operand::{ElemSize, RegWidth, VecHalf, VecOperand, VecShape};
use super::loads_stores::lane_count;
use crate::reg::{Gpr, Vec};

verus! {

/// A vector of `elem` lanes filling 64 bits, or 128 with `Q`, in register
/// `index`.
pub open spec fn vector_at(index: u32, elem: ElemSize, is_quad: bool) -> VecOperand {
    VecOperand {
        reg: Vec::at(index as u8),
        shape: VecShape::Vector {
            elem,
            count: lane_count(elem, is_quad) as u8,
            half: if is_quad { VecHalf::Full } else { VecHalf::Low },
        },
    }
}

/// Lane `lane` of `elem` width in register `index`.
pub open spec fn element_at(index: u32, elem: ElemSize, lane: u8) -> VecOperand {
    VecOperand { reg: Vec::at(index as u8), shape: VecShape::Element { elem, index: lane } }
}

/// A vector operand of `elem` lanes filling the selected width.
fn vector(index: u32, elem: ElemSize, is_quad: bool) -> (r: VecOperand)
    requires
        index < 32,
    ensures
        r == vector_at(index, elem, is_quad),
{
    let lanes = (if is_quad { 128u32 } else { 64u32 }) / elem.bits();
    VecOperand {
        reg: Vec::new(index as u8),
        shape: VecShape::Vector { elem, count: lanes as u8, half: if is_quad { VecHalf::Full } else { VecHalf::Low } },
    }
}

/// A single addressed lane.
fn element(index: u32, elem: ElemSize, lane: u8) -> (r: VecOperand)
    requires
        index < 32,
    ensures
        r == element_at(index, elem, lane),
{
    VecOperand { reg: Vec::new(index as u8), shape: VecShape::Element { elem, index: lane } }
}

/// Advanced SIMD, `op0 = x111` with bit 28 clear: bit 31 is RES0; bits
/// 28..24 of `01111` are the immediates and shifts, `01110` the register
/// forms, split by bit 21.
pub open spec fn spec_data_processing(encoding: u32) -> Instruction {
    if field(encoding, 31, 31) == 1 {
        unallocated(encoding)
    } else if field(encoding, 28, 24) == 0b01111 {
        spec_immediate_or_shift(encoding)
    } else if field(encoding, 28, 24) != 0b01110 {
        unallocated(encoding)
    } else if field(encoding, 21, 21) == 0 {
        spec_bit21_clear(encoding)
    } else {
        spec_bit21_set(encoding)
    }
}

/// Advanced SIMD: `op0 = x111` with bit 28 clear.
///
/// Families are separated by bits 31, 24..21 and 15..10, following the ARM
/// ARM's "Advanced SIMD" tables. Anything not claimed falls through to
/// `unallocated`, which is the trap the lazy plan feeds on.
pub fn data_processing(encoding: u32) -> (r: Instruction)
    ensures
        r.operands_valid(),
        r == spec_data_processing(encoding),
{
    // Bit 31 is RES0 across every encoding claimed here.
    if bits(encoding, 31, 31) == 1 {
        return unallocated(encoding);
    }
    if bits(encoding, 28, 24) == 0b01111 {
        return immediate_or_shift(encoding);
    }
    if bits(encoding, 28, 24) != 0b01110 {
        return unallocated(encoding);
    }

    if bits(encoding, 21, 21) == 0 {
        return bit21_clear(encoding);
    }
    bit21_set(encoding)
}

/// Bit 21 clear: the copy group (bit 10 set), `TBL`/`TBX` (bits 11..10 of
/// `00`), and at `10` either `EXT` (bit 29 set, bits 23..22 clear) or the
/// permutes.
pub open spec fn spec_bit21_clear(encoding: u32) -> Instruction {
    if field(encoding, 10, 10) == 1 {
        spec_copy(encoding)
    } else if field(encoding, 11, 10) == 0 {
        spec_table_lookup(encoding)
    } else if field(encoding, 11, 10) != 2 {
        unallocated(encoding)
    } else if field(encoding, 29, 29) == 1 {
        if field(encoding, 23, 22) != 0 { unallocated(encoding) } else { spec_extract(encoding) }
    } else {
        spec_permute(encoding)
    }
}

/// Bit 21 clear: the copy group, `TBL`/`TBX`, `EXT`, and the permutes.
fn bit21_clear(encoding: u32) -> (r: Instruction)
    ensures
        r.operands_valid(),
        r == spec_bit21_clear(encoding),
{
    // The copy group is the only one here with bit 10 set.
    if bits(encoding, 10, 10) == 1 {
        return copy(encoding);
    }
    if bits(encoding, 11, 10) == 0b00 {
        return table_lookup(encoding);
    }
    if bits(encoding, 11, 10) != 0b10 {
        return unallocated(encoding);
    }

    // EXT and the permutes share bits 11..10 = 10. `op` — bit 29 — set is EXT,
    // which also requires op2 in bits 23..22 to be zero.
    if bits(encoding, 29, 29) == 1 {
        if bits(encoding, 23, 22) != 0b00 {
            return unallocated(encoding);
        }
        return extract(encoding);
    }
    permute(encoding)
}

/// Bit 21 set: at bits 11..10 of `10`, the reductions (bits 20..17 `1000`)
/// and the two-register misc group (`0000`); then the logical group (opcode
/// `000111`) and the rest of three-register-same (bit 10 set).
pub open spec fn spec_bit21_set(encoding: u32) -> Instruction {
    if field(encoding, 11, 10) == 2 && field(encoding, 20, 17) == 8 {
        spec_across_lanes(encoding)
    } else if field(encoding, 11, 10) == 2 && field(encoding, 20, 17) == 0 {
        spec_two_register(encoding)
    } else if field(encoding, 15, 10) == 7 {
        spec_three_same_logical(encoding)
    } else if field(encoding, 10, 10) == 1 {
        spec_three_same(encoding)
    } else {
        unallocated(encoding)
    }
}

/// Bit 21 set: the three-register-same group, the reductions and the
/// two-register misc family.
fn bit21_set(encoding: u32) -> (r: Instruction)
    ensures
        r.operands_valid(),
        r == spec_bit21_set(encoding),
{
    // The reductions and the two-register misc group both sit at bits 11..10 =
    // 10; the reductions carry `1000` in bits 20..17 and the misc group `0000`.
    if bits(encoding, 11, 10) == 0b10 {
        let selector = bits(encoding, 20, 17);
        if selector == 0b1000 {
            return across_lanes(encoding);
        }
        if selector == 0b0000 {
            return two_register(encoding);
        }
    }

    // The logical operations share one opcode and read `size` as the
    // operation rather than as an element width.
    if bits(encoding, 15, 10) == 0b000111 {
        return three_same_logical(encoding);
    }
    if bits(encoding, 10, 10) == 1 {
        return three_same(encoding);
    }
    unallocated(encoding)
}

/// Bits 28..24 = 01111: a zero `immh` (bits 22..19) is a modified immediate,
/// any other a shift by immediate.
pub open spec fn spec_immediate_or_shift(encoding: u32) -> Instruction {
    if field(encoding, 22, 19) == 0 { spec_move_immediate(encoding) } else { spec_shift_by_immediate(encoding) }
}

/// Bits 28..24 = 01111: the modified immediates and the shifts by immediate.
fn immediate_or_shift(encoding: u32) -> (r: Instruction)
    ensures
        r.operands_valid(),
        r == spec_immediate_or_shift(encoding),
{
    if bits(encoding, 22, 19) == 0 {
        return move_immediate(encoding);
    }
    shift_by_immediate(encoding)
}

/// The logical group's operation, from `U` (bit 29) and `size`.
pub open spec fn logical_op(u: u32, size: u32) -> Op {
    if u == 0 {
        if size == 0 { Op::VecAnd } else if size == 1 { Op::VecBic } else if size == 2 { Op::VecOrr } else { Op::VecOrn }
    } else {
        if size == 0 { Op::VecEor } else if size == 1 { Op::VecBsl } else if size == 2 { Op::VecBit } else { Op::VecBif }
    }
}

/// `AND`, `BIC`, `ORR`, `ORN`, `EOR`, `BSL`, `BIT`, `BIF` on byte vectors.
pub open spec fn spec_three_same_logical(encoding: u32) -> Instruction {
    let quad = field(encoding, 30, 30) == 1;
    Instruction::new(
        encoding,
        logical_op(field(encoding, 29, 29), field(encoding, 23, 22)),
        Form::VecData {
            vd: vector_at(field(encoding, 4, 0), ElemSize::B8, quad),
            vn: vector_at(field(encoding, 9, 5), ElemSize::B8, quad),
            vm: Some(vector_at(field(encoding, 20, 16), ElemSize::B8, quad)),
            va: None,
        },
    )
}

/// `AND`, `ORR`, `EOR`, `BIC`, `ORN`, `BSL`, `BIT`, `BIF` — the logical group,
/// whose `size` field selects the operation rather than an element width.
fn three_same_logical(encoding: u32) -> (r: Instruction)
    ensures
        r.operands_valid(),
        r == spec_three_same_logical(encoding),
{
    let (rd, rn, rm) = (register_field(encoding, 0), register_field(encoding, 5), register_field(encoding, 16));
    let u = bits(encoding, 29, 29);
    let size = bits(encoding, 23, 22);
    let op = if u == 0 {
        if size == 0 { Op::VecAnd } else if size == 1 { Op::VecBic } else if size == 2 { Op::VecOrr } else { Op::VecOrn }
    } else {
        if size == 0 { Op::VecEor } else if size == 1 { Op::VecBsl } else if size == 2 { Op::VecBit } else { Op::VecBif }
    };

    // Every operand is bytes here: the operation is bitwise, so the lane width
    // carries no meaning.
    let quad = bits(encoding, 30, 30) == 1;
    let form = Form::VecData {
        vd: vector(rd as u32, ElemSize::B8, quad),
        vn: vector(rn as u32, ElemSize::B8, quad),
        vm: Some(vector(rm as u32, ElemSize::B8, quad)),
        va: None,
    };
    Instruction::new(encoding, op, form)
}

/// The opcode table of the three-register-same group.
#[verifier::allow_in_spec]
pub fn three_same_op(opcode: u32, is_unsigned: bool) -> (r: Option<Op>)
    returns
        (if opcode == 0b00001 {
            Some(if is_unsigned { Op::Ushl } else { Op::Sshl })
        } else if opcode == 0b00110 {
            Some(if is_unsigned { Op::VecCmhi } else { Op::VecCmgt })
        } else if opcode == 0b00111 {
            Some(if is_unsigned { Op::VecCmhs } else { Op::VecCmge })
        } else if opcode == 0b10000 {
            Some(if is_unsigned { Op::VecSub } else { Op::VecAdd })
        } else if opcode == 0b10001 && is_unsigned {
            Some(Op::VecCmeq)
        } else if opcode == 0b10011 {
            Some(Op::VecMul)
        } else if opcode == 0b10010 {
            Some(if is_unsigned { Op::VecMls } else { Op::VecMla })
        } else if opcode == 0b10111 {
            Some(Op::Addp)
        } else {
            None
        }),
{
    if opcode == 0b00001 {
        Some(if is_unsigned { Op::Ushl } else { Op::Sshl })
    } else if opcode == 0b00110 {
        Some(if is_unsigned { Op::VecCmhi } else { Op::VecCmgt })
    } else if opcode == 0b00111 {
        Some(if is_unsigned { Op::VecCmhs } else { Op::VecCmge })
    } else if opcode == 0b10000 {
        Some(if is_unsigned { Op::VecSub } else { Op::VecAdd })
    } else if opcode == 0b10001 && is_unsigned {
        Some(Op::VecCmeq)
    } else if opcode == 0b10011 {
        Some(Op::VecMul)
    } else if opcode == 0b10010 {
        Some(if is_unsigned { Op::VecMls } else { Op::VecMla })
    } else if opcode == 0b10111 {
        Some(Op::Addp)
    } else {
        None
    }
}

/// Arithmetic and comparisons on three vectors of the `size` element width; a
/// 64-bit element needs `Q`.
pub open spec fn spec_three_same(encoding: u32) -> Instruction {
    let elem = ElemSize::from_size(field(encoding, 23, 22) as u8);
    let quad = field(encoding, 30, 30) == 1;
    match three_same_op(field(encoding, 15, 11), field(encoding, 29, 29) == 1) {
        None => unallocated(encoding),
        Some(op) => if elem == ElemSize::D64 && !quad {
            unallocated(encoding)
        } else {
            Instruction::new(
                encoding,
                op,
                Form::VecData {
                    vd: vector_at(field(encoding, 4, 0), elem, quad),
                    vn: vector_at(field(encoding, 9, 5), elem, quad),
                    vm: Some(vector_at(field(encoding, 20, 16), elem, quad)),
                    va: None,
                },
            )
        },
    }
}

/// The three-register-same group: arithmetic and the comparisons.
fn three_same(encoding: u32) -> (r: Instruction)
    ensures
        r.operands_valid(),
        r == spec_three_same(encoding),
{
    let (rd, rn, rm) = (register_field(encoding, 0), register_field(encoding, 5), register_field(encoding, 16));
    let is_unsigned = bits(encoding, 29, 29) == 1;
    let elem = ElemSize::from_size(bits(encoding, 23, 22) as u8);
    let quad = bits(encoding, 30, 30) == 1;

    let op = match three_same_op(bits(encoding, 15, 11), is_unsigned) {
        Some(op) => op,
        None => return unallocated(encoding),
    };
    // A 64-bit element needs the full register: one lane is not an
    // arrangement the architecture encodes.
    if elem == ElemSize::D64 && !quad {
        return unallocated(encoding);
    }

    let form = Form::VecData {
        vd: vector(rd as u32, elem, quad),
        vn: vector(rn as u32, elem, quad),
        vm: Some(vector(rm as u32, elem, quad)),
        va: None,
    };
    Instruction::new(encoding, op, form)
}

/// `ADDV`, `UMAXV` and `UMINV`, from the opcode in bits 16..12 and `U`,
/// reducing a vector to one element.
pub open spec fn spec_across_lanes(encoding: u32) -> Instruction {
    let elem = ElemSize::from_size(field(encoding, 23, 22) as u8);
    let quad = field(encoding, 30, 30) == 1;
    let opcode = field(encoding, 16, 12);
    let u = field(encoding, 29, 29);
    let op = if opcode == 0b11010 && u == 1 {
        Some(Op::Uminv)
    } else if opcode == 0b01010 && u == 1 {
        Some(Op::Umaxv)
    } else if opcode == 0b11011 {
        Some(Op::Addv)
    } else {
        None
    };
    match op {
        None => unallocated(encoding),
        Some(op) => Instruction::new(
            encoding,
            op,
            Form::VecData {
                vd: VecOperand { reg: Vec::at(field(encoding, 4, 0) as u8), shape: VecShape::Scalar(elem) },
                vn: vector_at(field(encoding, 9, 5), elem, quad),
                vm: None,
                va: None,
            },
        ),
    }
}

/// The across-lanes reductions: `ADDV`, `UMAXV`, `UMINV`.
fn across_lanes(encoding: u32) -> (r: Instruction)
    ensures
        r.operands_valid(),
        r == spec_across_lanes(encoding),
{
    let rd = register_field(encoding, 0);
    let rn = register_field(encoding, 5);
    let elem = ElemSize::from_size(bits(encoding, 23, 22) as u8);
    let quad = bits(encoding, 30, 30) == 1;

    // opcode is bits 16..12, with `U` choosing between the signed and unsigned
    // extrema. Only the unsigned pair and ADDV are claimed.
    let opcode = bits(encoding, 16, 12);
    let u = bits(encoding, 29, 29);
    let op = if opcode == 0b11010 && u == 1 {
        Op::Uminv
    } else if opcode == 0b01010 && u == 1 {
        Op::Umaxv
    } else if opcode == 0b11011 {
        Op::Addv
    } else {
        return unallocated(encoding);
    };
    // The reduction writes one element, not a vector.
    let form = Form::VecData {
        vd: VecOperand { reg: Vec::new(rd), shape: VecShape::Scalar(elem) },
        vn: vector(rn as u32, elem, quad),
        vm: None,
        va: None,
    };
    Instruction::new(encoding, op, form)
}

/// `imm5` names both the element width and the lane, by the position of its
/// lowest set bit.
#[verifier::allow_in_spec]
pub fn lane_from_imm5(imm5: u32) -> (r: Option<(ElemSize, u8)>)
    requires
        imm5 < 32,
    returns
        (if imm5 % 2 == 1 {
            Some((ElemSize::B8, (imm5 / 2) as u8))
        } else if (imm5 / 2) % 2 == 1 {
            Some((ElemSize::H16, (imm5 / 4) as u8))
        } else if (imm5 / 4) % 2 == 1 {
            Some((ElemSize::S32, (imm5 / 8) as u8))
        } else if (imm5 / 8) % 2 == 1 {
            Some((ElemSize::D64, (imm5 / 16) as u8))
        } else {
            None
        }),
{
    if imm5 % 2 == 1 {
        Some((ElemSize::B8, (imm5 / 2) as u8))
    } else if (imm5 / 2) % 2 == 1 {
        Some((ElemSize::H16, (imm5 / 4) as u8))
    } else if (imm5 / 4) % 2 == 1 {
        Some((ElemSize::S32, (imm5 / 8) as u8))
    } else if (imm5 / 8) % 2 == 1 {
        Some((ElemSize::D64, (imm5 / 16) as u8))
    } else {
        None
    }
}

/// The copy group, keyed on `imm5` (bits 20..16) and, with bit 29 clear, on
/// `imm4` (bits 14..11): `DUP` from an element or a register, `INS` from a
/// register, `SMOV` and `UMOV`; with bit 29 set, the element-to-element
/// `INS`.
pub open spec fn spec_copy(encoding: u32) -> Instruction {
    let rd = field(encoding, 4, 0);
    let rn = field(encoding, 9, 5);
    let quad = field(encoding, 30, 30) == 1;
    match lane_from_imm5(field(encoding, 20, 16)) {
        None => unallocated(encoding),
        Some((elem, lane)) => if field(encoding, 29, 29) == 1 {
            spec_insert_element(encoding)
        } else {
            let imm4 = field(encoding, 14, 11);
            if imm4 == 0 {
                Instruction::new(
                    encoding,
                    Op::Dup,
                    Form::VecData { vd: vector_at(rd, elem, quad), vn: element_at(rn, elem, lane), vm: None, va: None },
                )
            } else if imm4 == 1 {
                Instruction::new(
                    encoding,
                    Op::Dup,
                    Form::VecGprMove { gpr: Gpr::from_index_zr(rn as u8), vec: vector_at(rd, elem, quad) },
                )
            } else if imm4 == 3 {
                Instruction::new(
                    encoding,
                    Op::InsGpr,
                    Form::VecGprMove { gpr: Gpr::from_index_zr(rn as u8), vec: element_at(rd, elem, lane) },
                )
            } else if imm4 == 5 || imm4 == 7 {
                Instruction::new(
                    encoding,
                    if imm4 == 5 { Op::Smov } else { Op::Umov },
                    Form::VecGprMove { gpr: Gpr::from_index_zr(rd as u8), vec: element_at(rn, elem, lane) },
                ).with_width(RegWidth::from_sf(quad))
            } else {
                unallocated(encoding)
            }
        },
    }
}

/// `DUP`, `INS`, `UMOV`, `SMOV` — the copy group, keyed on `imm5`.
fn copy(encoding: u32) -> (r: Instruction)
    ensures
        r.operands_valid(),
        r == spec_copy(encoding),
{
    let rd = register_field(encoding, 0);
    let rn = register_field(encoding, 5);
    let imm5 = bits(encoding, 20, 16);
    proof { vstd::arithmetic::power2::lemma2_to64(); }
    let (elem, lane) = match lane_from_imm5(imm5) {
        Some(found) => found,
        None => return unallocated(encoding),
    };

    // op — bit 29 — set is the element-to-element insert, whose imm4 names a
    // source lane rather than selecting an operation.
    if bits(encoding, 29, 29) == 1 {
        return insert_element(encoding);
    }

    let quad = bits(encoding, 30, 30) == 1;
    let imm4 = bits(encoding, 14, 11);
    if imm4 == 0b0000 {
        // DUP Vd.T, Vn.Ts[index]
        let form = Form::VecData {
            vd: vector(rd as u32, elem, quad),
            vn: element(rn as u32, elem, lane),
            vm: None,
            va: None,
        };
        Instruction::new(encoding, Op::Dup, form)
    } else if imm4 == 0b0001 {
        // DUP Vd.T, Rn
        let form = Form::VecGprMove { gpr: Gpr::from_index_zr(rn), vec: vector(rd as u32, elem, quad) };
        Instruction::new(encoding, Op::Dup, form)
    } else if imm4 == 0b0011 {
        // INS Vd.Ts[index], Rn
        let form = Form::VecGprMove { gpr: Gpr::from_index_zr(rn), vec: element(rd as u32, elem, lane) };
        Instruction::new(encoding, Op::InsGpr, form)
    } else if imm4 == 0b0101 || imm4 == 0b0111 {
        // SMOV / UMOV
        let form = Form::VecGprMove { gpr: Gpr::from_index_zr(rd), vec: element(rn as u32, elem, lane) };
        let op = if imm4 == 0b0101 { Op::Smov } else { Op::Umov };
        Instruction::new(encoding, op, form).with_width(RegWidth::from_sf(quad))
    } else {
        unallocated(encoding)
    }
}

/// The position of an element width in the `imm5`/`imm4` encodings: 0 for
/// bytes up to 3 for doublewords.
#[verifier::allow_in_spec]
pub fn size_index(elem: ElemSize) -> (r: u32)
    returns
        (match elem {
            ElemSize::B8 => 0u32,
            ElemSize::H16 => 1u32,
            ElemSize::S32 => 2u32,
            ElemSize::D64 => 3u32,
            ElemSize::Q128 => 4u32,
        }),
{
    match elem {
        ElemSize::B8 => 0,
        ElemSize::H16 => 1,
        ElemSize::S32 => 2,
        ElemSize::D64 => 3,
        ElemSize::Q128 => 4,
    }
}

/// `INS Vd.Ts[index], Vn.Ts[index2]`: `imm5` names the width and the
/// destination lane, and `imm4` shifted right by the width's position names
/// the source lane.
pub open spec fn spec_insert_element(encoding: u32) -> Instruction {
    match lane_from_imm5(field(encoding, 20, 16)) {
        None => unallocated(encoding),
        Some((elem, destination)) => {
            let source = (field(encoding, 14, 11) >> size_index(elem)) as u8;
            Instruction::new(
                encoding,
                Op::Ins,
                Form::VecData {
                    vd: element_at(field(encoding, 4, 0), elem, destination),
                    vn: element_at(field(encoding, 9, 5), elem, source),
                    vm: None,
                    va: None,
                },
            )
        },
    }
}

/// `INS Vd.Ts[index], Vn.Ts[index2]` — the element-to-element form.
fn insert_element(encoding: u32) -> (r: Instruction)
    ensures
        r.operands_valid(),
        r == spec_insert_element(encoding),
{
    let rd = register_field(encoding, 0);
    let rn = register_field(encoding, 5);
    proof { vstd::arithmetic::power2::lemma2_to64(); }
    let (elem, destination) = match lane_from_imm5(bits(encoding, 20, 16)) {
        Some(found) => found,
        None => return unallocated(encoding),
    };
    // imm4 names the source lane, shifted by the element's own width.
    let source = (bits(encoding, 14, 11) >> size_index(elem)) as u8;

    let form = Form::VecData {
        vd: element(rd as u32, elem, destination),
        vn: element(rn as u32, elem, source),
        vm: None,
        va: None,
    };
    Instruction::new(encoding, Op::Ins, form)
}

/// `TBL` (bit 12 clear) and `TBX`, over `len + 1` table registers from `Rn`.
pub open spec fn spec_table_lookup(encoding: u32) -> Instruction {
    let quad = field(encoding, 30, 30) == 1;
    Instruction::new(
        encoding,
        if field(encoding, 12, 12) == 1 { Op::Tbx } else { Op::Tbl },
        Form::TableLookup {
            vd: vector_at(field(encoding, 4, 0), ElemSize::B8, quad),
            table: Vec::at(field(encoding, 9, 5) as u8),
            table_len: (field(encoding, 14, 13) + 1) as u8,
            vm: vector_at(field(encoding, 20, 16), ElemSize::B8, quad),
        },
    )
}

/// `TBL` and `TBX`.
fn table_lookup(encoding: u32) -> (r: Instruction)
    ensures
        r.operands_valid(),
        r == spec_table_lookup(encoding),
{
    let (rd, rn, rm) = (register_field(encoding, 0), register_field(encoding, 5), register_field(encoding, 16));
    proof { vstd::arithmetic::power2::lemma2_to64(); }
    // `len` counts the table registers, one less than the field.
    let table_len = bits(encoding, 14, 13) as u8 + 1;
    let op = if bits(encoding, 12, 12) == 1 { Op::Tbx } else { Op::Tbl };

    let quad = bits(encoding, 30, 30) == 1;
    let form = Form::TableLookup {
        vd: vector(rd as u32, ElemSize::B8, quad),
        table: Vec::new(rn),
        table_len,
        vm: vector(rm as u32, ElemSize::B8, quad),
    };
    Instruction::new(encoding, op, form)
}

/// `EXT`: the byte index is bits 14..11, at most 7 without `Q`.
pub open spec fn spec_extract(encoding: u32) -> Instruction {
    let quad = field(encoding, 30, 30) == 1;
    let index = field(encoding, 14, 11);
    if !quad && index >= 8 {
        unallocated(encoding)
    } else {
        Instruction::new(
            encoding,
            Op::Ext,
            Form::VecImm {
                vd: vector_at(field(encoding, 4, 0), ElemSize::B8, quad),
                vn: vector_at(field(encoding, 9, 5), ElemSize::B8, quad),
                imm: index as u64,
            },
        )
    }
}

/// `EXT` — a byte-granular extraction from a pair of registers.
///
/// `Rm` is the second half of the extracted pair. `VecImm` has no slot for
/// it, so the interpreter reads it back out of the encoding, which every
/// instruction carries; the index is what needs resolving at decode time.
fn extract(encoding: u32) -> (r: Instruction)
    ensures
        r.operands_valid(),
        r == spec_extract(encoding),
{
    let rd = register_field(encoding, 0);
    let rn = register_field(encoding, 5);
    let quad = bits(encoding, 30, 30) == 1;
    let index = bits(encoding, 14, 11);
    // A 64-bit form cannot name an index above 7.
    if !quad && index >= 8 {
        return unallocated(encoding);
    }

    let form = Form::VecImm {
        vd: vector(rd as u32, ElemSize::B8, quad),
        vn: vector(rn as u32, ElemSize::B8, quad),
        imm: index as u64,
    };
    Instruction::new(encoding, Op::Ext, form)
}

/// The two-register misc operation from the opcode in bits 16..12 and `U`.
pub open spec fn two_register_op(opcode: u32, u: u32) -> Option<Op> {
    if opcode == 0 && u == 0 {
        Some(Op::VecRev64)
    } else if opcode == 1 && u == 0 {
        Some(Op::VecRev16)
    } else if opcode == 5 && u == 0 {
        Some(Op::VecCnt)
    } else if opcode == 5 && u == 1 {
        Some(Op::VecNot)
    } else if opcode == 11 && u == 0 {
        Some(Op::VecAbs)
    } else if opcode == 11 && u == 1 {
        Some(Op::VecNeg)
    } else {
        None
    }
}

/// `NOT`, `CNT`, `REV64`, `REV16`, `NEG`, `ABS`; the bitwise two are always
/// on bytes.
pub open spec fn spec_two_register(encoding: u32) -> Instruction {
    let quad = field(encoding, 30, 30) == 1;
    match two_register_op(field(encoding, 16, 12), field(encoding, 29, 29)) {
        None => unallocated(encoding),
        Some(op) => {
            let elem = if op is VecNot || op is VecCnt {
                ElemSize::B8
            } else {
                ElemSize::from_size(field(encoding, 23, 22) as u8)
            };
            Instruction::new(
                encoding,
                op,
                Form::VecData {
                    vd: vector_at(field(encoding, 4, 0), elem, quad),
                    vn: vector_at(field(encoding, 9, 5), elem, quad),
                    vm: None,
                    va: None,
                },
            )
        },
    }
}

/// The two-register misc group: `NOT`, `CNT`, `REV64`, `REV16`, `NEG`, `ABS`.
fn two_register(encoding: u32) -> (r: Instruction)
    ensures
        r.operands_valid(),
        r == spec_two_register(encoding),
{
    let rd = register_field(encoding, 0);
    let rn = register_field(encoding, 5);
    let quad = bits(encoding, 30, 30) == 1;
    let opcode = bits(encoding, 16, 12);
    let u = bits(encoding, 29, 29);

    let op = if opcode == 0 && u == 0 {
        Op::VecRev64
    } else if opcode == 1 && u == 0 {
        Op::VecRev16
    } else if opcode == 5 && u == 0 {
        Op::VecCnt
    } else if opcode == 5 && u == 1 {
        Op::VecNot
    } else if opcode == 11 && u == 0 {
        Op::VecAbs
    } else if opcode == 11 && u == 1 {
        Op::VecNeg
    } else {
        return unallocated(encoding);
    };
    // The bitwise operations are always byte-shaped.
    let elem = match op {
        Op::VecNot | Op::VecCnt => ElemSize::B8,
        _ => ElemSize::from_size(bits(encoding, 23, 22) as u8),
    };

    let form = Form::VecData {
        vd: vector(rd as u32, elem, quad),
        vn: vector(rn as u32, elem, quad),
        vm: None,
        va: None,
    };
    Instruction::new(encoding, op, form)
}

/// The single-precision immediate `cmode = 1111` spells, as `VFPExpandImm`
/// builds it: the sign from bit 7, the exponent from bit 6 inverted, bit 6
/// repeated five times and bits 5..4, and the significand from bits 3..0.
pub open spec fn float32_immediate(imm8: u8) -> u64 {
    let sign = imm8 as int / 128;
    let exponent_high = (imm8 as int / 64) % 2;
    let exponent_low = (imm8 as int / 16) % 4;
    let mantissa = imm8 as int % 16;
    (sign * 0x8000_0000 + (1 - exponent_high) * 0x4000_0000 + (if exponent_high == 1 { 0x1fint } else { 0int }) * 0x200_0000
        + exponent_low * 0x80_0000 + mantissa * 0x8_0000) as u64
}

/// The 64-bit mask with byte `i` all ones exactly where bit `i` of `imm8` is
/// set, counting the low `count` bits.
pub open spec fn byte_mask(imm8: u8, count: nat) -> int
    decreases count,
{
    if count == 0 {
        0
    } else {
        let bit = (count - 1) as nat;
        byte_mask(imm8, bit) + (if (imm8 as int / vstd::arithmetic::power2::pow2(bit) as int) % 2 == 1 {
            0xff * vstd::arithmetic::power2::pow2(8 * bit) as int
        } else {
            0
        })
    }
}

/// `AdvSIMDExpandImm`, restricted to the `cmode` values claimed here: the
/// per-element immediate and the element width it replicates at.
pub open spec fn expanded_immediate(imm8: u8, cmode: u32, is_inverted: bool) -> Option<(u64, ElemSize)> {
    let value = imm8 as int;
    let group = cmode / 2;
    if group <= 3 {
        Some(((value * vstd::arithmetic::power2::pow2(8 * group as nat)) as u64, ElemSize::S32))
    } else if group == 4 || group == 5 {
        Some(((value * vstd::arithmetic::power2::pow2(8 * (group % 2) as nat)) as u64, ElemSize::H16))
    } else if group == 6 && cmode % 2 == 0 {
        Some(((value * 0x100 + 0xff) as u64, ElemSize::S32))
    } else if group == 6 {
        Some(((value * 0x1_0000 + 0xffff) as u64, ElemSize::S32))
    } else if cmode % 16 == 14 && !is_inverted {
        Some((imm8 as u64, ElemSize::B8))
    } else if cmode % 16 == 14 && is_inverted {
        Some((byte_mask(imm8, 8) as u64, ElemSize::D64))
    } else if cmode % 16 == 15 && !is_inverted {
        Some((float32_immediate(imm8), ElemSize::S32))
    } else {
        None
    }
}

/// `MOVI` and `MVNI`: `imm8` from `abc` (bits 18..16) and `defgh` (9..5),
/// expanded per `cmode` (15..12); `op` (bit 29) set is `MVNI` except for the
/// 64-bit byte-mask `MOVI`.
pub open spec fn spec_move_immediate(encoding: u32) -> Instruction {
    let cmode = field(encoding, 15, 12);
    let is_inverted = field(encoding, 29, 29) == 1;
    let imm8 = (field(encoding, 18, 16) * 32 + field(encoding, 9, 5)) as u8;
    match expanded_immediate(imm8, cmode, is_inverted) {
        None => unallocated(encoding),
        Some((imm, elem)) => {
            let vd = vector_at(field(encoding, 4, 0), elem, field(encoding, 30, 30) == 1);
            Instruction::new(
                encoding,
                if is_inverted && cmode != 14 { Op::Mvni } else { Op::Movi },
                Form::VecImm { vd, vn: vd, imm },
            )
        },
    }
}

/// `MOVI` and `MVNI`.
fn move_immediate(encoding: u32) -> (r: Instruction)
    ensures
        r.operands_valid(),
        r == spec_move_immediate(encoding),
{
    let rd = register_field(encoding, 0);
    let cmode = bits(encoding, 15, 12);
    let is_inverted = bits(encoding, 29, 29) == 1;
    let abc = bits(encoding, 18, 16);
    let defgh = bits(encoding, 9, 5);
    proof { vstd::arithmetic::power2::lemma2_to64(); }
    let imm8 = (abc * 32 + defgh) as u8;

    let (imm, elem) = match expand_advsimd_immediate(imm8, cmode, is_inverted) {
        Some(found) => found,
        None => return unallocated(encoding),
    };
    // cmode = 1110 with op = 1 is the 64-bit `MOVI Dd, #imm`, whose immediate
    // is a byte mask rather than a replicated value.
    let op = if is_inverted && cmode != 0b1110 { Op::Mvni } else { Op::Movi };

    let vd = vector(rd as u32, elem, bits(encoding, 30, 30) == 1);
    let form = Form::VecImm { vd, vn: vd, imm };
    Instruction::new(encoding, op, form)
}

/// `AdvSIMDExpandImm`, restricted to the `cmode` values claimed here.
fn expand_advsimd_immediate(imm8: u8, cmode: u32, is_inverted: bool) -> (r: Option<(u64, ElemSize)>)
    requires
        cmode < 16,
    ensures
        r == expanded_immediate(imm8, cmode, is_inverted),
{
    proof { vstd::arithmetic::power2::lemma2_to64(); }
    let value = imm8 as u64;
    let group = cmode / 2;
    if group <= 3 {
        // 32-bit, shifted by 0, 8, 16 or 24.
        let weight: u64 = if group == 0 { 1 } else if group == 1 { 0x100 } else if group == 2 { 0x1_0000 } else { 0x100_0000 };
        assert(weight == vstd::arithmetic::power2::pow2(8 * group as nat));
        Some((value * weight, ElemSize::S32))
    } else if group == 4 || group == 5 {
        // 16-bit, shifted by 0 or 8.
        let weight: u64 = if group == 4 { 1 } else { 0x100 };
        assert(weight == vstd::arithmetic::power2::pow2(8 * (group % 2) as nat));
        Some((value * weight, ElemSize::H16))
    } else if group == 6 {
        // 32-bit with trailing ones: eight of them for `1100`, sixteen for
        // `1101`.
        if cmode % 2 == 0 {
            Some((value * 0x100 + 0xff, ElemSize::S32))
        } else {
            Some((value * 0x1_0000 + 0xffff, ElemSize::S32))
        }
    } else {
        expand_wide_immediate(imm8, cmode, is_inverted)
    }
}

/// The `cmode = 111x` values: byte replication, the 64-bit byte mask and the
/// float immediate.
fn expand_wide_immediate(imm8: u8, cmode: u32, is_inverted: bool) -> (r: Option<(u64, ElemSize)>)
    requires
        cmode == 14 || cmode == 15,
    ensures
        r == expanded_immediate(imm8, cmode, is_inverted),
{
    if cmode == 14 && !is_inverted {
        Some((imm8 as u64, ElemSize::B8))
    } else if cmode == 14 {
        // MOVI Dd, #imm: each bit of imm8 becomes a whole byte.
        Some((expand_byte_mask(imm8), ElemSize::D64))
    } else if !is_inverted {
        // A single-precision float immediate, as VFPExpandImm builds it.
        Some((expand_float32(imm8), ElemSize::S32))
    } else {
        None
    }
}

/// Each set bit of `imm8` becomes a whole byte of ones.
fn expand_byte_mask(imm8: u8) -> (r: u64)
    ensures
        r == byte_mask(imm8, 8),
{
    proof { vstd::arithmetic::power2::lemma2_to64(); }
    let mut expanded: u128 = 0;
    let mut bit: u32 = 0;
    let mut weight: u128 = 1;
    let mut bit_weight: u32 = 1;
    while bit < 8
        invariant
            bit <= 8,
            weight == vstd::arithmetic::power2::pow2(8 * bit as nat),
            bit_weight == vstd::arithmetic::power2::pow2(bit as nat),
            expanded == byte_mask(imm8, bit as nat),
            expanded < weight,
            weight <= 0x1_0000_0000_0000_0000,
            bit_weight <= 256,
        decreases 8 - bit,
    {
        proof {
            vstd::arithmetic::power2::lemma2_to64();
            vstd::arithmetic::power2::lemma_pow2_adds(8 * bit as nat, 8);
            vstd::arithmetic::power2::lemma_pow2_adds(bit as nat, 1);
            if bit < 7 {
                vstd::arithmetic::power2::lemma_pow2_strictly_increases(8 * bit as nat + 8, 64);
                vstd::arithmetic::power2::lemma_pow2_strictly_increases(bit as nat + 1, 8);
            }
            vstd::arithmetic::power2::lemma2_to64_rest();
        }
        if (imm8 as u32 / bit_weight) % 2 == 1 {
            expanded = expanded + 0xff * weight;
        }
        weight = weight * 256;
        bit_weight = bit_weight * 2;
        bit = bit + 1;
    }
    expanded as u64
}

/// The `cmode = 1111` float immediate.
fn expand_float32(imm8: u8) -> (r: u64)
    ensures
        r == float32_immediate(imm8),
{
    let sign = (imm8 / 128) as u64;
    let exponent_high = ((imm8 / 64) % 2) as u64;
    let exponent_low = ((imm8 / 16) % 4) as u64;
    let mantissa = (imm8 % 16) as u64;
    let repeated: u64 = if exponent_high == 1 { 0x1f } else { 0 };

    sign * 0x8000_0000 + (1 - exponent_high) * 0x4000_0000 + repeated * 0x200_0000 + exponent_low * 0x80_0000
        + mantissa * 0x8_0000
}

/// `immh` names the element width by its highest set bit.
#[verifier::allow_in_spec]
pub fn element_from_immh(immh: u32) -> (r: Option<ElemSize>)
    returns
        (if immh == 1 {
            Some(ElemSize::B8)
        } else if immh == 2 || immh == 3 {
            Some(ElemSize::H16)
        } else if 4 <= immh <= 7 {
            Some(ElemSize::S32)
        } else if 8 <= immh <= 15 {
            Some(ElemSize::D64)
        } else {
            None
        }),
{
    if immh == 1 {
        Some(ElemSize::B8)
    } else if immh == 2 || immh == 3 {
        Some(ElemSize::H16)
    } else if 4 <= immh && immh <= 7 {
        Some(ElemSize::S32)
    } else if 8 <= immh && immh <= 15 {
        Some(ElemSize::D64)
    } else {
        None
    }
}

/// `SHL`, `USHR`, `SSHR`: `immh:immb` (bits 22..16) encodes the element width
/// and the amount — counting up from the width for the left shift (opcode
/// `01010` in bits 15..11) and down from twice it for the right shifts (opcode
/// `00000`, `U` choosing unsigned).
pub open spec fn spec_shift_by_immediate(encoding: u32) -> Instruction {
    match element_from_immh(field(encoding, 22, 19)) {
        None => unallocated(encoding),
        Some(elem) => {
            let width = elem.bits() as int;
            let encoded = field(encoding, 22, 19) * 8 + field(encoding, 18, 16);
            let is_left = field(encoding, 15, 11) == 0b01010;
            if !is_left && field(encoding, 15, 11) != 0 {
                unallocated(encoding)
            } else {
                let quad = field(encoding, 30, 30) == 1;
                Instruction::new(
                    encoding,
                    if is_left { Op::VecShl } else if field(encoding, 29, 29) == 1 { Op::VecUshr } else { Op::VecSshr },
                    Form::VecImm {
                        vd: vector_at(field(encoding, 4, 0), elem, quad),
                        vn: vector_at(field(encoding, 9, 5), elem, quad),
                        imm: (if is_left { encoded - width } else { 2 * width - encoded }) as u64,
                    },
                )
            }
        },
    }
}

/// `SHL`, `USHR`, `SSHR` — shifts by an immediate, whose `immh` names the
/// element width.
fn shift_by_immediate(encoding: u32) -> (r: Instruction)
    ensures
        r.operands_valid(),
        r == spec_shift_by_immediate(encoding),
{
    let rd = register_field(encoding, 0);
    let rn = register_field(encoding, 5);
    let immh = bits(encoding, 22, 19);
    let immb = bits(encoding, 18, 16);
    proof { vstd::arithmetic::power2::lemma2_to64(); }
    let elem = match element_from_immh(immh) {
        Some(elem) => elem,
        None => return unallocated(encoding),
    };

    let width = elem.bits();
    let encoded = immh * 8 + immb;
    let is_left = bits(encoding, 15, 11) == 0b01010;
    // A left shift counts up from the element's width; a right shift counts
    // down from twice it.
    let amount = if is_left { encoded - width } else { 2 * width - encoded };

    let op = if is_left {
        Op::VecShl
    } else if bits(encoding, 29, 29) == 1 {
        Op::VecUshr
    } else {
        Op::VecSshr
    };
    if !is_left && bits(encoding, 15, 11) != 0b00000 {
        return unallocated(encoding);
    }

    let quad = bits(encoding, 30, 30) == 1;
    let vd = vector(rd as u32, elem, quad);
    let form = Form::VecImm { vd, vn: vector(rn as u32, elem, quad), imm: amount as u64 };
    Instruction::new(encoding, op, form)
}

/// The permute operation from bits 14..12.
pub open spec fn permute_op(opcode: u32) -> Option<Op> {
    if opcode == 1 {
        Some(Op::Uzp1)
    } else if opcode == 2 {
        Some(Op::Trn1)
    } else if opcode == 3 {
        Some(Op::Zip1)
    } else if opcode == 5 {
        Some(Op::Uzp2)
    } else if opcode == 6 {
        Some(Op::Trn2)
    } else if opcode == 7 {
        Some(Op::Zip2)
    } else {
        None
    }
}

/// `ZIP`, `UZP`, `TRN` on three vectors of the `size` width; a 64-bit element
/// needs `Q`.
pub open spec fn spec_permute(encoding: u32) -> Instruction {
    let elem = ElemSize::from_size(field(encoding, 23, 22) as u8);
    let quad = field(encoding, 30, 30) == 1;
    match permute_op(field(encoding, 14, 12)) {
        None => unallocated(encoding),
        Some(op) => if elem == ElemSize::D64 && !quad {
            unallocated(encoding)
        } else {
            Instruction::new(
                encoding,
                op,
                Form::VecData {
                    vd: vector_at(field(encoding, 4, 0), elem, quad),
                    vn: vector_at(field(encoding, 9, 5), elem, quad),
                    vm: Some(vector_at(field(encoding, 20, 16), elem, quad)),
                    va: None,
                },
            )
        },
    }
}

/// The permute group: `ZIP`, `UZP`, `TRN`.
fn permute(encoding: u32) -> (r: Instruction)
    ensures
        r.operands_valid(),
        r == spec_permute(encoding),
{
    let (rd, rn, rm) = (register_field(encoding, 0), register_field(encoding, 5), register_field(encoding, 16));
    let elem = ElemSize::from_size(bits(encoding, 23, 22) as u8);
    let quad = bits(encoding, 30, 30) == 1;

    let opcode = bits(encoding, 14, 12);
    let op = if opcode == 1 {
        Op::Uzp1
    } else if opcode == 2 {
        Op::Trn1
    } else if opcode == 3 {
        Op::Zip1
    } else if opcode == 5 {
        Op::Uzp2
    } else if opcode == 6 {
        Op::Trn2
    } else if opcode == 7 {
        Op::Zip2
    } else {
        return unallocated(encoding);
    };
    if elem == ElemSize::D64 && !quad {
        return unallocated(encoding);
    }

    let form = Form::VecData {
        vd: vector(rd as u32, elem, quad),
        vn: vector(rn as u32, elem, quad),
        vm: Some(vector(rm as u32, elem, quad)),
        va: None,
    };
    Instruction::new(encoding, op, form)
}

} // verus!
