//! SIMD/FP loads and stores — the `V = 1` half of the loads-and-stores group.
//!
//! Two families live here: the single-register and pair forms, which mirror
//! their general-purpose counterparts but name a [`VecOperand`], and the
//! `LD1`–`LD4` structure forms, which have no general-purpose equivalent at
//! all.
use vstd::prelude::*;
use vstd::arithmetic::power2::lemma2_to64;
use crate::decode::address::{AddrMode, MemoryOrdering, WriteBack};
use crate::decode::field::{bits, field, register_field, sign_extend, sign_extended};
use crate::decode::instruction::{unallocated, Form, Instruction};
use crate::decode::op::Op;
use crate::decode::operand::{ElemSize, ExtendKind, ExtendedReg, VecHalf, VecOperand, VecShape};
use crate::decode::group::dp_register::{sp_at, zr_at};
use crate::reg::{Gpr, Vec};

verus! {

/// The first transferred register as a scalar of `size`.
pub open spec fn transferred_at(encoding: u32, size: ElemSize) -> VecOperand {
    VecOperand { reg: Vec::at(field(encoding, 4, 0) as u8), shape: VecShape::Scalar(size) }
}

/// The first transferred SIMD/FP register, as a scalar of `size`.
fn transferred(encoding: u32, size: ElemSize) -> (r: VecOperand)
    ensures
        r == transferred_at(encoding, size),
{
    VecOperand { reg: Vec::new(register_field(encoding, 0)), shape: VecShape::Scalar(size) }
}

/// The `V = 1` table: bits 29..28 pick the structure forms, the literal, the
/// pairs and the single-register addressing modes.
pub open spec fn spec_loads_and_stores_vec(encoding: u32) -> Instruction {
    let family = field(encoding, 29, 28);
    if family == 0 {
        spec_structure(encoding)
    } else if family == 1 {
        spec_literal(encoding)
    } else if family == 2 {
        spec_pair(encoding)
    } else {
        spec_single_register(encoding)
    }
}

/// `V = 1` in the loads-and-stores group.
pub fn loads_and_stores_vec(encoding: u32) -> (r: Instruction)
    ensures
        r.operands_valid(),
        r == spec_loads_and_stores_vec(encoding),
{
    // Bits 29..28 pick the family, as they do for the general-purpose half:
    // `00` is the structure forms, `01` the literal, `10` the pairs, `11` the
    // single-register addressing modes.
    let family = bits(encoding, 29, 28);
    if family == 0b00 {
        structure(encoding)
    } else if family == 0b01 {
        literal(encoding)
    } else if family == 0b10 {
        pair(encoding)
    } else {
        single_register(encoding)
    }
}

/// The access width of a single-register form: `opc<1>` (bit 23) is the top
/// bit of a four-bit width, so a `Q` access is `size = 00` with it set.
#[verifier::allow_in_spec]
pub fn single_size(encoding: u32) -> (r: Option<ElemSize>)
    returns
        (if field(encoding, 23, 23) == 0 {
            Some(ElemSize::from_size(field(encoding, 31, 30) as u8))
        } else if field(encoding, 31, 30) == 0 {
            Some(ElemSize::Q128)
        } else {
            None
        }),
{
    let size = bits(encoding, 31, 30);
    if bits(encoding, 23, 23) == 0 {
        Some(ElemSize::from_size(size as u8))
    } else if size == 0b00 {
        Some(ElemSize::Q128)
    } else {
        None
    }
}

/// `log2` of an element's width in bytes, which is the immediate's scale.
#[verifier::allow_in_spec]
pub fn scale_of(size: ElemSize) -> (r: u32)
    returns
        (match size {
            ElemSize::B8 => 0u32,
            ElemSize::H16 => 1u32,
            ElemSize::S32 => 2u32,
            ElemSize::D64 => 3u32,
            ElemSize::Q128 => 4u32,
        }),
{
    match size {
        ElemSize::B8 => 0,
        ElemSize::H16 => 1,
        ElemSize::S32 => 2,
        ElemSize::D64 => 3,
        ElemSize::Q128 => 4,
    }
}

/// A single-register transfer: a width, an address, and `opc<0>` (bit 22) as
/// the load bit.
pub open spec fn spec_single_register(encoding: u32) -> Instruction {
    match single_size(encoding) {
        None => unallocated(encoding),
        Some(size) => match spec_single_register_address(encoding, size) {
            None => unallocated(encoding),
            Some(addr) => Instruction::new(
                encoding,
                if field(encoding, 22, 22) == 1 { Op::Ldr } else { Op::Str },
                Form::LoadStoreVec { vt: transferred_at(encoding, size), count: 1, addr, ordering: MemoryOrdering::plain() },
            ),
        },
    }
}

/// The single-register forms: unsigned offset, unscaled, indexed, and
/// register offset.
fn single_register(encoding: u32) -> (r: Instruction)
    ensures
        r.operands_valid(),
        r == spec_single_register(encoding),
{
    let size = match single_size(encoding) {
        Some(size) => size,
        None => return unallocated(encoding),
    };
    let addr = match single_register_address(encoding, size) {
        Some(addr) => addr,
        None => return unallocated(encoding),
    };

    // opc<0> selects a load over a store.
    let op = if bits(encoding, 22, 22) == 1 { Op::Ldr } else { Op::Str };
    let form = Form::LoadStoreVec {
        vt: transferred(encoding, size),
        count: 1,
        addr,
        ordering: MemoryOrdering::plain(),
    };
    Instruction::new(encoding, op, form)
}

/// The single-register address, as for the general-purpose file but scaled
/// by the element width.
pub open spec fn spec_single_register_address(encoding: u32, size: ElemSize) -> Option<AddrMode> {
    if field(encoding, 24, 24) == 1 {
        Some(AddrMode::Immediate {
            base: sp_at(encoding, 5),
            offset: ((field(encoding, 21, 10) as u64) << scale_of(size)) as i64,
            writeback: WriteBack::NoUpdate,
        })
    } else if field(encoding, 21, 21) == 1 {
        if field(encoding, 11, 10) != 2 {
            None
        } else {
            Some(spec_register_offset(encoding, size))
        }
    } else {
        let index_mode = field(encoding, 11, 10);
        if index_mode == 2 {
            None
        } else {
            Some(AddrMode::Immediate {
                base: sp_at(encoding, 5),
                offset: sign_extended(field(encoding, 20, 12), 9) as i64,
                writeback: if index_mode == 0 { WriteBack::NoUpdate } else if index_mode == 1 { WriteBack::Post } else { WriteBack::Pre },
            })
        }
    }
}

/// The address of a single-register form, or `None` for the unclaimed
/// encodings.
fn single_register_address(encoding: u32, size: ElemSize) -> (r: Option<AddrMode>)
    ensures
        r matches Some(addr) ==> addr.registers_valid(),
        r == spec_single_register_address(encoding, size),
{
    proof { lemma2_to64(); }
    if bits(encoding, 24, 24) == 1 {
        return Some(AddrMode::Immediate {
            base: Gpr::from_index_sp(register_field(encoding, 5)),
            offset: ((bits(encoding, 21, 10) as u64) << scale_of(size)) as i64,
            writeback: WriteBack::NoUpdate,
        });
    }

    if bits(encoding, 21, 21) == 1 {
        // Only option = 10 in bits 11..10 is the register offset.
        if bits(encoding, 11, 10) != 0b10 {
            return None;
        }
        return Some(register_offset(encoding, size));
    }

    let offset = sign_extend(bits(encoding, 20, 12), 9);
    let index_mode = bits(encoding, 11, 10);
    let writeback = if index_mode == 0b00 {
        WriteBack::NoUpdate
    } else if index_mode == 0b01 {
        WriteBack::Post
    } else if index_mode == 0b11 {
        WriteBack::Pre
    } else {
        return None;
    };
    Some(AddrMode::Immediate { base: Gpr::from_index_sp(register_field(encoding, 5)), offset, writeback })
}

/// `[base, Xm, extend #amount]`, scaled by the element width when `S` is set.
pub open spec fn spec_register_offset(encoding: u32, size: ElemSize) -> AddrMode {
    AddrMode::Register {
        base: sp_at(encoding, 5),
        index: ExtendedReg {
            reg: zr_at(encoding, 16),
            kind: ExtendKind::from_option(field(encoding, 15, 13) as u8),
            amount: if field(encoding, 12, 12) == 1 { scale_of(size) as u8 } else { 0 },
        },
        writeback: WriteBack::NoUpdate,
    }
}

/// `[base, Xm, extend #amount]`.
fn register_offset(encoding: u32, size: ElemSize) -> (r: AddrMode)
    ensures
        r.registers_valid(),
        r == spec_register_offset(encoding, size),
{
    let is_scaled = bits(encoding, 12, 12) == 1;
    AddrMode::Register {
        base: Gpr::from_index_sp(register_field(encoding, 5)),
        index: ExtendedReg {
            reg: Gpr::from_index_zr(register_field(encoding, 16)),
            kind: ExtendKind::from_option(bits(encoding, 15, 13) as u8),
            amount: if is_scaled { scale_of(size) as u8 } else { 0 },
        },
        writeback: WriteBack::NoUpdate,
    }
}

/// The width a literal or pair names in bits 31..30: single, double or quad.
#[verifier::allow_in_spec]
pub fn literal_size(encoding: u32) -> (r: Option<ElemSize>)
    returns
        (if field(encoding, 31, 30) == 0 {
            Some(ElemSize::S32)
        } else if field(encoding, 31, 30) == 1 {
            Some(ElemSize::D64)
        } else if field(encoding, 31, 30) == 2 {
            Some(ElemSize::Q128)
        } else {
            None
        }),
{
    let opc = bits(encoding, 31, 30);
    if opc == 0b00 {
        Some(ElemSize::S32)
    } else if opc == 0b01 {
        Some(ElemSize::D64)
    } else if opc == 0b10 {
        Some(ElemSize::Q128)
    } else {
        None
    }
}

/// `LDR (literal, SIMD&FP)` with a 19-bit word offset.
pub open spec fn spec_literal(encoding: u32) -> Instruction {
    match literal_size(encoding) {
        None => unallocated(encoding),
        Some(size) => Instruction::new(encoding, Op::Ldr, Form::LoadStoreVec {
            vt: transferred_at(encoding, size),
            count: 1,
            addr: AddrMode::PcRelative { offset: (sign_extended(field(encoding, 23, 5), 19) * 4) as i64 },
            ordering: MemoryOrdering::plain(),
        }),
    }
}

/// `LDR (literal, SIMD&FP)`.
///
/// `opc` names the width directly here rather than combining with `size`,
/// because a literal load has no `size` field.
fn literal(encoding: u32) -> (r: Instruction)
    ensures
        r.operands_valid(),
        r == spec_literal(encoding),
{
    proof { lemma2_to64(); }
    let size = match literal_size(encoding) {
        Some(size) => size,
        None => return unallocated(encoding),
    };

    let form = Form::LoadStoreVec {
        vt: transferred(encoding, size),
        count: 1,
        addr: AddrMode::PcRelative { offset: sign_extend(bits(encoding, 23, 5), 19) * 4 },
        ordering: MemoryOrdering::plain(),
    };
    Instruction::new(encoding, Op::Ldr, form)
}

/// `LDP`/`STP` of two SIMD/FP registers: the offset counts registers, and the
/// non-temporal form is not claimed.
pub open spec fn spec_pair(encoding: u32) -> Instruction {
    match literal_size(encoding) {
        None => unallocated(encoding),
        Some(size) => match pair_writeback(encoding) {
            None => unallocated(encoding),
            Some(writeback) => Instruction::new(
                encoding,
                if field(encoding, 22, 22) == 1 { Op::Ldp } else { Op::Stp },
                Form::LoadStoreVec {
                    vt: transferred_at(encoding, size),
                    count: 2,
                    addr: AddrMode::Immediate {
                        base: sp_at(encoding, 5),
                        offset: (sign_extended(field(encoding, 21, 15), 7) as i64) << scale_of(size),
                        writeback,
                    },
                    ordering: MemoryOrdering::plain(),
                },
            ),
        },
    }
}

/// `LDP`/`STP` of two SIMD/FP registers.
fn pair(encoding: u32) -> (r: Instruction)
    ensures
        r.operands_valid(),
        r == spec_pair(encoding),
{
    let size = match literal_size(encoding) {
        Some(size) => size,
        None => return unallocated(encoding),
    };
    let writeback = match pair_writeback(encoding) {
        Some(writeback) => writeback,
        None => return unallocated(encoding),
    };

    let form = Form::LoadStoreVec {
        vt: transferred(encoding, size),
        // `LoadStoreVec` counts consecutive registers; the pair names its
        // second in `Rt2`, which is the one after `Rt` by convention.
        count: 2,
        addr: AddrMode::Immediate {
            base: Gpr::from_index_sp(register_field(encoding, 5)),
            offset: sign_extend(bits(encoding, 21, 15), 7) << scale_of(size),
            writeback,
        },
        ordering: MemoryOrdering::plain(),
    };

    let op = if bits(encoding, 22, 22) == 1 { Op::Ldp } else { Op::Stp };
    Instruction::new(encoding, op, form)
}

/// The pair forms' addressing mode, from bits 24..23; `00`, the non-temporal
/// pair, is not claimed.
#[verifier::allow_in_spec]
pub fn pair_writeback(encoding: u32) -> (r: Option<WriteBack>)
    returns
        (if field(encoding, 24, 23) == 1 {
            Some(WriteBack::Post)
        } else if field(encoding, 24, 23) == 2 {
            Some(WriteBack::NoUpdate)
        } else if field(encoding, 24, 23) == 3 {
            Some(WriteBack::Pre)
        } else {
            None
        }),
{
    let mode = bits(encoding, 24, 23);
    if mode == 0b01 {
        Some(WriteBack::Post)
    } else if mode == 0b10 {
        Some(WriteBack::NoUpdate)
    } else if mode == 0b11 {
        Some(WriteBack::Pre)
    } else {
        None
    }
}

/// What an `LD1`–`LD4` opcode names: the mnemonic and how many registers it
/// transfers.
#[derive(Clone, Copy, PartialEq, Eq, Structural)]
pub struct Structure {
    /// The load opcode.
    pub op_load: Op,
    /// The store opcode.
    pub op_store: Op,
    /// Registers transferred.
    pub count: u8,
}

/// Decodes the 4-bit `opcode` of a structure form.
///
/// The register count is not the mnemonic's number: `LD1` transfers one, two,
/// three or four registers depending on the opcode, while `LD3` always
/// transfers three.
#[verifier::allow_in_spec]
pub fn structure_kind(opcode: u32) -> (r: Option<Structure>)
    returns
        (if opcode == 0 {
            Some(Structure { op_load: Op::Ld4, op_store: Op::St4, count: 4 })
        } else if opcode == 2 {
            Some(Structure { op_load: Op::Ld1, op_store: Op::St1, count: 4 })
        } else if opcode == 4 {
            Some(Structure { op_load: Op::Ld3, op_store: Op::St3, count: 3 })
        } else if opcode == 6 {
            Some(Structure { op_load: Op::Ld1, op_store: Op::St1, count: 3 })
        } else if opcode == 7 {
            Some(Structure { op_load: Op::Ld1, op_store: Op::St1, count: 1 })
        } else if opcode == 8 {
            Some(Structure { op_load: Op::Ld2, op_store: Op::St2, count: 2 })
        } else if opcode == 10 {
            Some(Structure { op_load: Op::Ld1, op_store: Op::St1, count: 2 })
        } else {
            None
        }),
{
    if opcode == 0b0000 {
        Some(Structure { op_load: Op::Ld4, op_store: Op::St4, count: 4 })
    } else if opcode == 0b0010 {
        Some(Structure { op_load: Op::Ld1, op_store: Op::St1, count: 4 })
    } else if opcode == 0b0100 {
        Some(Structure { op_load: Op::Ld3, op_store: Op::St3, count: 3 })
    } else if opcode == 0b0110 {
        Some(Structure { op_load: Op::Ld1, op_store: Op::St1, count: 3 })
    } else if opcode == 0b0111 {
        Some(Structure { op_load: Op::Ld1, op_store: Op::St1, count: 1 })
    } else if opcode == 0b1000 {
        Some(Structure { op_load: Op::Ld2, op_store: Op::St2, count: 2 })
    } else if opcode == 0b1010 {
        Some(Structure { op_load: Op::Ld1, op_store: Op::St1, count: 2 })
    } else {
        None
    }
}

/// The lanes of a vector of `elem` filling 64 bits, or 128 with `Q`.
pub open spec fn lane_count(elem: ElemSize, is_quad: bool) -> u32 {
    ((if is_quad { 128u32 } else { 64u32 }) / elem.bits()) as u32
}

/// `LD1`–`LD4` and `ST1`–`ST4`: a non-indexed form needs bits 21..16 clear; the
/// opcode comes from [`structure_kind`]; a 64-bit vector of 64-bit elements
/// is not encoded.
pub open spec fn spec_structure(encoding: u32) -> Instruction {
    let is_post_indexed = field(encoding, 23, 23) == 1;
    let is_quad = field(encoding, 30, 30) == 1;
    let elem = ElemSize::from_size(field(encoding, 11, 10) as u8);
    if !is_post_indexed && field(encoding, 21, 16) != 0 {
        unallocated(encoding)
    } else {
        match structure_kind(field(encoding, 15, 12)) {
            None => unallocated(encoding),
            Some(kind) => if elem == ElemSize::D64 && !is_quad {
                unallocated(encoding)
            } else {
                let lanes = lane_count(elem, is_quad);
                let vt = VecOperand {
                    reg: Vec::at(field(encoding, 4, 0) as u8),
                    shape: VecShape::Vector { elem, count: lanes as u8, half: if is_quad { VecHalf::Full } else { VecHalf::Low } },
                };
                Instruction::new(
                    encoding,
                    if field(encoding, 22, 22) == 1 { kind.op_load } else { kind.op_store },
                    Form::LoadStoreVec {
                        vt,
                        count: kind.count,
                        addr: spec_structure_address(encoding, is_post_indexed, kind.count, if is_quad { 16 } else { 8 }),
                        ordering: MemoryOrdering::plain(),
                    },
                )
            },
        }
    }
}

/// `LD1`–`LD4` and `ST1`–`ST4`, the multiple-structure forms.
fn structure(encoding: u32) -> (r: Instruction)
    ensures
        r.operands_valid(),
        r == spec_structure(encoding),
{
    // Bit 23 selects the post-indexed forms; bits 21..16 must be zero for the
    // non-indexed ones, and hold `Rm` otherwise.
    let is_post_indexed = bits(encoding, 23, 23) == 1;
    if !is_post_indexed && bits(encoding, 21, 16) != 0 {
        return unallocated(encoding);
    }
    let kind = match structure_kind(bits(encoding, 15, 12)) {
        Some(kind) => kind,
        None => return unallocated(encoding),
    };

    let is_quad = bits(encoding, 30, 30) == 1;
    let elem = ElemSize::from_size(bits(encoding, 11, 10) as u8);
    // A 64-bit vector of 64-bit elements is one lane, which the architecture
    // does not encode: `size = 11` requires `Q`.
    if elem == ElemSize::D64 && !is_quad {
        return unallocated(encoding);
    }

    let lanes = (if is_quad { 128u32 } else { 64u32 }) / elem.bits();
    let vt = VecOperand {
        reg: Vec::new(register_field(encoding, 0)),
        shape: VecShape::Vector {
            elem,
            count: lanes as u8,
            half: if is_quad { VecHalf::Full } else { VecHalf::Low },
        },
    };

    let is_load = bits(encoding, 22, 22) == 1;
    let op = if is_load { kind.op_load } else { kind.op_store };
    let form = Form::LoadStoreVec {
        vt,
        count: kind.count,
        addr: structure_address(encoding, is_post_indexed, kind.count, if is_quad { 16 } else { 8 }),
        ordering: MemoryOrdering::plain(),
    };
    Instruction::new(encoding, op, form)
}

/// A structure form's address: `[base]`, or post-indexed by the bytes
/// transferred when `Rm = 31`, or by `Xm` otherwise.
pub open spec fn spec_structure_address(encoding: u32, is_post_indexed: bool, count: u8, bytes_per_register: u32) -> AddrMode {
    if !is_post_indexed {
        AddrMode::BaseOnly { base: sp_at(encoding, 5) }
    } else if field(encoding, 20, 16) == 31 {
        AddrMode::Immediate {
            base: sp_at(encoding, 5),
            offset: (count * bytes_per_register) as i64,
            writeback: WriteBack::Post,
        }
    } else {
        AddrMode::Register {
            base: sp_at(encoding, 5),
            index: ExtendedReg { reg: zr_at(encoding, 16), kind: ExtendKind::Uxtx, amount: 0 },
            writeback: WriteBack::Post,
        }
    }
}

/// The address of a structure form.
///
/// The immediate post-indexed forms encode `Rm = 31`, meaning "advance by the
/// number of bytes transferred" rather than naming a register.
fn structure_address(encoding: u32, is_post_indexed: bool, count: u8, bytes_per_register: u32) -> (r: AddrMode)
    requires
        count <= 4,
        bytes_per_register <= 16,
    ensures
        r.registers_valid(),
        r == spec_structure_address(encoding, is_post_indexed, count, bytes_per_register),
{
    let base = Gpr::from_index_sp(register_field(encoding, 5));
    if !is_post_indexed {
        return AddrMode::BaseOnly { base };
    }

    let rm = register_field(encoding, 16);
    if rm == 31 {
        assert(count as u32 * bytes_per_register <= 64) by (nonlinear_arith)
            requires
                count <= 4,
                bytes_per_register <= 16;
        return AddrMode::Immediate {
            base,
            offset: (count as u32 * bytes_per_register) as i64,
            writeback: WriteBack::Post,
        };
    }
    AddrMode::Register {
        base,
        index: ExtendedReg { reg: Gpr::from_index_zr(rm), kind: ExtendKind::Uxtx, amount: 0 },
        writeback: WriteBack::Post,
    }
}

} // verus!
