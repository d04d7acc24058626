//! Loads and stores, general-purpose register file.
//!
//! Every general-purpose load and store: the immediate, register-offset,
//! literal and pair addressing modes, the exclusives, and the acquire/release
//! forms. `V = 1` selects the SIMD/FP register file and is handed to
//! [`super::simd_fp::loads_and_stores_vec`].
//!
//! The LSE atomic group (`CAS`, `SWP`, `LDADD` and the rest) shares this
//! encoding space but is not advertised by this machine, so it is left
//! unallocated and faults like any unimplemented encoding.
use vstd::prelude::*;
use vstd::arithmetic::power2::lemma2_to64;
use crate::decode::address::{AccessSize, AddrMode, MemoryOrdering, WriteBack};
use crate::decode::field::{bits, byte_field, field, register_field, sign_extend, sign_extended};
use crate::decode::instruction::{unallocated, Form, Instruction};
use crate::decode::op::Op;
use crate::decode::operand::{ExtendKind, ExtendedReg, RegWidth};
use crate::reg::Gpr;
use super::dp_register::{sp_at, zr_at};
use super::simd_fp::{loads_and_stores_vec, spec_loads_and_stores_vec};

verus! {

/// The "Loads and Stores" table: `V = 1` goes to the SIMD/FP half; otherwise
/// bits 29..28 pick the family, and the exclusive and literal families require
/// bit 24 clear.
pub open spec fn spec_loads_and_stores(encoding: u32) -> Instruction {
    if field(encoding, 26, 26) == 1 {
        spec_loads_and_stores_vec(encoding)
    } else {
        let family = field(encoding, 29, 28);
        let has_reserved_bit_set = field(encoding, 24, 24) == 1;
        if family <= 1 && has_reserved_bit_set {
            unallocated(encoding)
        } else if family == 0 {
            spec_exclusive(encoding)
        } else if family == 1 {
            spec_literal(encoding)
        } else if family == 2 {
            spec_pair(encoding)
        } else {
            spec_single_register(encoding)
        }
    }
}

/// `op0 = x1x0` — loads and stores.
///
/// Bits 29..28 pick the family, exactly as the ARM ARM's "Loads and Stores"
/// table does: `00` the exclusives, `01` the literals, `10` the pairs, and `11`
/// the single-register forms, whose addressing mode is then chosen by bits
/// 25..24, 21 and 11..10.
pub fn loads_and_stores(encoding: u32) -> (r: Instruction)
    ensures
        r.operands_valid(),
        r == spec_loads_and_stores(encoding),
{
    // V = 1 is the SIMD/FP register file.
    if bits(encoding, 26, 26) == 1 {
        return loads_and_stores_vec(encoding);
    }

    // The exclusive and literal families both fix bit 24 at 0. Only the pair
    // and single-register forms give it a meaning — the index mode and the
    // unsigned-offset selector respectively.
    let family = bits(encoding, 29, 28);
    let has_reserved_bit_set = bits(encoding, 24, 24) == 1;

    if family <= 0b01 && has_reserved_bit_set {
        unallocated(encoding)
    } else if family == 0b00 {
        exclusive(encoding)
    } else if family == 0b01 {
        literal(encoding)
    } else if family == 0b10 {
        pair(encoding)
    } else {
        single_register(encoding)
    }
}

/// A single-register transfer around an address.
pub open spec fn spec_transfer(encoding: u32, addr: AddrMode, size: AccessSize) -> Form {
    Form::LoadStore {
        rt: zr_at(encoding, 0),
        rt2: None,
        rs: None,
        addr,
        size,
        ordering: MemoryOrdering::plain(),
    }
}

/// Builds a single-register transfer around an address.
fn transfer(encoding: u32, addr: AddrMode, size: AccessSize) -> (r: Form)
    requires
        addr.registers_valid(),
        1 <= size.bytes <= 8,
    ensures
        r.registers_valid(RegWidth::W32), r.registers_valid(RegWidth::X64),
        r == spec_transfer(encoding, addr, size),
{
    Form::LoadStore {
        rt: Gpr::from_index_zr(register_field(encoding, 0)),
        rt2: None,
        rs: None,
        addr,
        size,
        ordering: MemoryOrdering::plain(),
    }
}

/// What the `opc` field of a single-register form asks for.
///
/// `opc<1>` selects sign-extension, and when it is set the encoding is always a
/// load whose *destination* width comes from `opc<0>`, inverted. When it is
/// clear, `opc<0>` is the load bit and the width follows the access size. The
/// two rules are genuinely different, and conflating them decodes `LDRSB X0` —
/// whose `opc<0>` is clear — as a store.
#[derive(Clone, Copy, PartialEq, Eq, Structural)]
pub struct SingleRegister {
    /// Whether the transfer is a load.
    pub is_load: bool,
    /// The access width and sign-extension.
    pub size: AccessSize,
    /// The destination width.
    pub width: RegWidth,
}

/// `size` and `opc` together: `None` for the sign-extending encodings that
/// have no sign-extended form (doublewords, and the word with a W
/// destination).
pub open spec fn single_register_kind(size_field: u32, opc: u32) -> Option<SingleRegister> {
    let is_sign_extending = opc >= 2;
    let has_signed_form = size_field < 3 && !(size_field == 2 && opc == 3);
    if is_sign_extending && !has_signed_form {
        None
    } else {
        Some(SingleRegister {
            is_load: if is_sign_extending { true } else { opc % 2 == 1 },
            size: AccessSize { bytes: if size_field == 0 { 1 } else if size_field == 1 { 2 } else if size_field == 2 { 4 } else { 8 }, is_signed: is_sign_extending },
            width: if is_sign_extending { RegWidth::from_sf(opc % 2 == 0) } else { RegWidth::from_sf(size_field == 3) },
        })
    }
}

impl SingleRegister {
    /// Decodes `size` and `opc` together, or `None` when the pair names an
    /// unallocated hole.
    pub fn decode(size_field: u32, opc: u32) -> (r: Option<SingleRegister>)
        requires
            size_field < 4,
            opc < 4,
        ensures
            r == single_register_kind(size_field, opc),
    {
        let is_sign_extending = opc >= 0b10;
        // Only sizes narrower than a doubleword have a sign-extended form.
        // 32-bit LDRSW has no W-destination counterpart.
        let has_signed_form = size_field < 0b11 && !(size_field == 0b10 && opc == 0b11);
        if is_sign_extending && !has_signed_form {
            return None;
        }

        let is_load = if is_sign_extending { true } else { opc % 2 == 1 };
        let width = if is_sign_extending {
            RegWidth::from_sf(opc % 2 == 0)
        } else {
            RegWidth::from_sf(size_field == 0b11)
        };
        let bytes: u8 = if size_field == 0 { 1 } else if size_field == 1 { 2 } else if size_field == 2 { 4 } else { 8 };

        Some(SingleRegister { is_load, size: AccessSize { bytes, is_signed: is_sign_extending }, width })
    }

    /// The opcode this transfer dispatches on.
    #[verifier::allow_in_spec]
    pub fn op(&self) -> (r: Op)
        returns
            (if self.is_load { Op::Ldr } else { Op::Str }),
    {
        if self.is_load {
            Op::Ldr
        } else {
            Op::Str
        }
    }
}

/// Whether `size = 11` with this `opc` names a prefetch rather than a transfer.
///
/// `PRFM` and `PRFUM` occupy the doubleword slot the sign-extended loads would
/// otherwise use, which is why they need no opcode of their own.
#[verifier::allow_in_spec]
pub fn is_prefetch(size_field: u32, opc: u32) -> (r: bool)
    returns
        size_field == 3 && opc == 2,
{
    size_field == 0b11 && opc == 0b10
}

/// Load/store register: the address mode decides first; a prefetch may not
/// write back; then `size`/`opc` decide the transfer.
pub open spec fn spec_single_register(encoding: u32) -> Instruction {
    let size_field = field(encoding, 31, 30);
    let opc = field(encoding, 23, 22);
    match spec_single_register_address(encoding, size_field) {
        None => unallocated(encoding),
        Some(addr) => if is_prefetch(size_field, opc) {
            if addr.has_writeback() {
                unallocated(encoding)
            } else {
                Instruction::new(encoding, Op::Prfm, Form::Prefetch { prfop: byte_field(encoding, 4, 0), addr })
            }
        } else {
            match single_register_kind(size_field, opc) {
                None => unallocated(encoding),
                Some(kind) => Instruction::new(encoding, kind.op(), spec_transfer(encoding, addr, kind.size))
                    .with_width(kind.width),
            }
        },
    }
}

/// Load/store register: the unsigned-offset, unscaled, indexed and
/// register-offset forms, which share `size` and `opc` and differ only in how
/// the address is formed.
fn single_register(encoding: u32) -> (r: Instruction)
    ensures
        r.operands_valid(),
        r == spec_single_register(encoding),
{
    proof { lemma2_to64(); }
    let size_field = bits(encoding, 31, 30);
    let opc = bits(encoding, 23, 22);
    let addr = match single_register_address(encoding, size_field) {
        Some(addr) => addr,
        None => return unallocated(encoding),
    };

    if is_prefetch(size_field, opc) {
        // Write-back updates the base register, and a prefetch transfers
        // nothing, so only the non-indexed forms are allocated.
        if addr.has_writeback() {
            return unallocated(encoding);
        }
        let form = Form::Prefetch { prfop: byte_field(encoding, 4, 0), addr };
        return Instruction::new(encoding, Op::Prfm, form);
    }

    let transferred = match SingleRegister::decode(size_field, opc) {
        Some(kind) => kind,
        None => return unallocated(encoding),
    };
    let form = transfer(encoding, addr, transferred.size);
    Instruction::new(encoding, transferred.op(), form).with_width(transferred.width)
}

/// The single-register address: bit 24 the unsigned scaled offset; bit 21 with
/// `11` in bits 11..10 the register offset; bit 21 clear the unscaled and
/// indexed forms by bits 11..10, where `10` (unprivileged) is not claimed.
pub open spec fn spec_single_register_address(encoding: u32, size_field: u32) -> Option<AddrMode> {
    if field(encoding, 24, 24) == 1 {
        Some(AddrMode::Immediate {
            base: sp_at(encoding, 5),
            offset: ((field(encoding, 21, 10) as u64) << size_field) as i64,
            writeback: WriteBack::NoUpdate,
        })
    } else if field(encoding, 21, 21) == 1 {
        if field(encoding, 11, 10) != 3 {
            None
        } else {
            spec_register_offset(encoding, size_field)
        }
    } else {
        let index_mode = field(encoding, 11, 10);
        if index_mode == 2 {
            None
        } else {
            Some(AddrMode::Immediate {
                base: sp_at(encoding, 5),
                offset: sign_extended(field(encoding, 20, 12), 9) as i64,
                writeback: if index_mode == 0 { WriteBack::NoUpdate } else if index_mode == 1 { WriteBack::Post } else { WriteBack::Pre },
            })
        }
    }
}

/// The address of a single-register form, or `None` for the encodings not
/// decoded here.
///
/// Bit 24 selects the unsigned scaled offset. Below it, bit 21 with `11` in
/// bits 11..10 is the register offset, and bit 21 clear selects the unscaled
/// and indexed forms by those same two bits. Everything else in the space is
/// LSE, which this machine does not advertise.
fn single_register_address(encoding: u32, size_field: u32) -> (r: Option<AddrMode>)
    requires
        size_field < 4,
    ensures
        r matches Some(addr) ==> addr.registers_valid(),
        r == spec_single_register_address(encoding, size_field),
{
    proof { lemma2_to64(); }
    if bits(encoding, 24, 24) == 1 {
        let scale = size_field;
        return Some(AddrMode::Immediate {
            base: Gpr::from_index_sp(register_field(encoding, 5)),
            offset: ((bits(encoding, 21, 10) as u64) << scale) as i64,
            writeback: WriteBack::NoUpdate,
        });
    }

    if bits(encoding, 21, 21) == 1 {
        // Only option = 11 in bits 11..10 is the register offset; the other
        // three are the LSE atomic group.
        if bits(encoding, 11, 10) != 0b11 {
            return None;
        }
        return register_offset(encoding, size_field);
    }

    let offset = sign_extend(bits(encoding, 20, 12), 9);
    let index_mode = bits(encoding, 11, 10);
    let writeback = if index_mode == 0b00 {
        WriteBack::NoUpdate
    } else if index_mode == 0b01 {
        WriteBack::Post
    } else if index_mode == 0b11 {
        WriteBack::Pre
    } else {
        // 10 is the unprivileged LDTR/STTR family, which needs EL1.
        return None;
    };

    Some(AddrMode::Immediate { base: Gpr::from_index_sp(register_field(encoding, 5)), offset, writeback })
}

/// `[base, Xm, extend #amount]`: `option<1>` must be set, and `S` scales by
/// the access size.
pub open spec fn spec_register_offset(encoding: u32, size_field: u32) -> Option<AddrMode> {
    let option = field(encoding, 15, 13);
    if option % 4 < 2 {
        None
    } else {
        Some(AddrMode::Register {
            base: sp_at(encoding, 5),
            index: ExtendedReg {
                reg: zr_at(encoding, 16),
                kind: ExtendKind::from_option(option as u8),
                amount: if field(encoding, 12, 12) == 1 { size_field as u8 } else { 0 },
            },
            writeback: WriteBack::NoUpdate,
        })
    }
}

/// `[base, Xm, extend #amount]`, or `None` when `option` names no index width.
///
/// The `S` bit selects a shift of `log2(access size)` rather than a fixed
/// amount, so a byte access scales by zero even with `S` set. `option<1>` must
/// be set: an index register is read as a word or a doubleword.
fn register_offset(encoding: u32, size_field: u32) -> (r: Option<AddrMode>)
    requires
        size_field < 4,
    ensures
        r matches Some(addr) ==> addr.registers_valid(),
        r == spec_register_offset(encoding, size_field),
{
    proof { lemma2_to64(); }
    let option = bits(encoding, 15, 13);
    if option % 4 < 2 {
        return None;
    }

    let is_scaled = bits(encoding, 12, 12) == 1;
    let amount = if is_scaled { size_field as u8 } else { 0 };

    Some(AddrMode::Register {
        base: Gpr::from_index_sp(register_field(encoding, 5)),
        index: ExtendedReg {
            reg: Gpr::from_index_zr(register_field(encoding, 16)),
            kind: ExtendKind::from_option(option as u8),
            amount,
        },
        writeback: WriteBack::NoUpdate,
    })
}

/// Load register (literal): a 19-bit word offset; `opc` (bits 31..30) picks a
/// 32-bit load, a 64-bit load, a sign-extended word, or a prefetch.
pub open spec fn spec_literal(encoding: u32) -> Instruction {
    let addr = AddrMode::PcRelative { offset: (sign_extended(field(encoding, 23, 5), 19) * 4) as i64 };
    let opc = field(encoding, 31, 30);
    if opc == 3 {
        Instruction::new(encoding, Op::Prfm, Form::Prefetch { prfop: byte_field(encoding, 4, 0), addr })
    } else {
        let size = if opc == 0 { AccessSize::word() } else if opc == 1 { AccessSize::doubleword() } else { AccessSize { bytes: 4, is_signed: true } };
        let width = if opc == 0 { RegWidth::W32 } else { RegWidth::X64 };
        Instruction::new(encoding, Op::Ldr, spec_transfer(encoding, addr, size)).with_width(width)
    }
}

/// Load register (literal): `LDR`, `LDRSW` and `PRFM` against a PC-relative
/// label.
///
/// `imm19` counts instructions, so the decoder scales it to bytes here and no
/// consumer repeats the multiply.
fn literal(encoding: u32) -> (r: Instruction)
    ensures
        r.operands_valid(),
        r == spec_literal(encoding),
{
    proof { lemma2_to64(); }
    let addr = AddrMode::PcRelative { offset: sign_extend(bits(encoding, 23, 5), 19) * 4 };

    // opc: 00 is a 32-bit load, 01 a 64-bit load, 10 a sign-extended word,
    // and 11 a prefetch.
    let opc = bits(encoding, 31, 30);
    if opc == 0b11 {
        let form = Form::Prefetch { prfop: byte_field(encoding, 4, 0), addr };
        return Instruction::new(encoding, Op::Prfm, form);
    }
    let size = if opc == 0b00 {
        AccessSize::word()
    } else if opc == 0b01 {
        AccessSize::doubleword()
    } else {
        AccessSize { bytes: 4, is_signed: true }
    };
    let width = if opc == 0b00 { RegWidth::W32 } else { RegWidth::X64 };

    let form = transfer(encoding, addr, size);
    Instruction::new(encoding, Op::Ldr, form).with_width(width)
}

/// Load/store pair: `opc` (bits 31..30) picks a word pair, `LDPSW`, or a
/// doubleword pair; the 7-bit offset counts registers; `LDPSW` has no
/// non-temporal form.
pub open spec fn spec_pair(encoding: u32) -> Instruction {
    let opc = field(encoding, 31, 30);
    let is_load = field(encoding, 22, 22) == 1;
    if !(opc == 0 || (opc == 1 && is_load) || opc == 2) {
        unallocated(encoding)
    } else {
        let size = if opc == 0 { AccessSize::word() } else if opc == 1 { AccessSize { bytes: 4, is_signed: true } } else { AccessSize::doubleword() };
        let width = if opc == 0 { RegWidth::W32 } else { RegWidth::X64 };
        if field(encoding, 24, 23) == 0 && size.is_signed {
            unallocated(encoding)
        } else {
            let form = Form::LoadStore {
                rt: zr_at(encoding, 0),
                rt2: Some(zr_at(encoding, 10)),
                rs: None,
                addr: AddrMode::Immediate {
                    base: sp_at(encoding, 5),
                    offset: (sign_extended(field(encoding, 21, 15), 7) * size.bytes) as i64,
                    writeback: pair_writeback(encoding),
                },
                size,
                ordering: MemoryOrdering::plain(),
            };
            Instruction::new(encoding, if is_load { Op::Ldp } else { Op::Stp }, form).with_width(width)
        }
    }
}

/// Load/store pair, including the non-temporal forms.
///
/// `imm7` counts registers rather than bytes, so it scales by the access size.
/// `LDPSW` is the one form whose access is narrower than its destination.
fn pair(encoding: u32) -> (r: Instruction)
    ensures
        r.operands_valid(),
        r == spec_pair(encoding),
{
    proof { lemma2_to64(); }
    let opc = bits(encoding, 31, 30);
    let is_load = bits(encoding, 22, 22) == 1;
    // opc = 01 is LDPSW, a load only; the store half of that slot has no
    // encoding, and opc = 11 is unallocated for the general-purpose file.
    if !(opc == 0b00 || (opc == 0b01 && is_load) || opc == 0b10) {
        return unallocated(encoding);
    }
    let size = if opc == 0b00 {
        AccessSize::word()
    } else if opc == 0b01 {
        AccessSize { bytes: 4, is_signed: true }
    } else {
        AccessSize::doubleword()
    };
    let width = if opc == 0b00 { RegWidth::W32 } else { RegWidth::X64 };

    let is_non_temporal = bits(encoding, 24, 23) == 0b00;
    // LDPSW is allocated only for the offset and indexed forms; there is no
    // LDNPSW, so the signed-word pair has no non-temporal encoding.
    if is_non_temporal && size.is_signed {
        return unallocated(encoding);
    }

    let registers = sign_extend(bits(encoding, 21, 15), 7);
    let form = Form::LoadStore {
        rt: Gpr::from_index_zr(register_field(encoding, 0)),
        rt2: Some(Gpr::from_index_zr(register_field(encoding, 10))),
        rs: None,
        addr: AddrMode::Immediate {
            base: Gpr::from_index_sp(register_field(encoding, 5)),
            offset: registers * size.bytes as i64,
            writeback: pair_writeback(encoding),
        },
        size,
        ordering: MemoryOrdering::plain(),
    };

    let op = if is_load { Op::Ldp } else { Op::Stp };
    Instruction::new(encoding, op, form).with_width(width)
}

/// How a pair updates its base, from bits 24..23.
///
/// `00` is the non-temporal form, which has no write-back at all — `STNP` is a
/// cache-allocation hint, and this machine has no cache to hint about, so it
/// decodes as an ordinary pair.
#[verifier::allow_in_spec]
pub fn pair_writeback(encoding: u32) -> (r: WriteBack)
    returns
        (if field(encoding, 24, 23) == 0 || field(encoding, 24, 23) == 2 {
            WriteBack::NoUpdate
        } else if field(encoding, 24, 23) == 1 {
            WriteBack::Post
        } else {
            WriteBack::Pre
        }),
{
    let mode = bits(encoding, 24, 23);
    if mode == 0b00 || mode == 0b10 {
        WriteBack::NoUpdate
    } else if mode == 0b01 {
        WriteBack::Post
    } else {
        WriteBack::Pre
    }
}

/// Load/store exclusive and the plain acquire/release forms: the size comes
/// from [`exclusive_size`]; a non-exclusive form must be ordered and cannot be
/// a pair; the status register exists only on an exclusive store.
pub open spec fn spec_exclusive(encoding: u32) -> Instruction {
    let size_field = field(encoding, 31, 30);
    let is_load = field(encoding, 22, 22) == 1;
    let is_exclusive = field(encoding, 23, 23) == 0;
    let is_pair = field(encoding, 21, 21) == 1;
    let is_ordered = field(encoding, 15, 15) == 1;
    match exclusive_size(size_field, is_pair) {
        None => unallocated(encoding),
        Some(size) => if (is_pair && !is_exclusive) || (!is_exclusive && !is_ordered) {
            unallocated(encoding)
        } else {
            let ordering = MemoryOrdering {
                is_acquire: is_load && is_ordered,
                is_release: !is_load && is_ordered,
                is_exclusive,
            };
            let form = Form::LoadStore {
                rt: zr_at(encoding, 0),
                rt2: if is_pair { Some(zr_at(encoding, 10)) } else { None },
                rs: if is_exclusive && !is_load { Some(zr_at(encoding, 16)) } else { None },
                addr: AddrMode::BaseOnly { base: sp_at(encoding, 5) },
                size,
                ordering,
            };
            Instruction::new(encoding, if is_load { Op::Ldar } else { Op::Stlr }, form)
                .with_width(RegWidth::from_sf(size_field == 3))
        },
    }
}

/// Load/store exclusive, and the plain acquire/release forms that share the
/// encoding.
///
/// Bit 23 (`o2`) distinguishes them: clear takes the exclusive monitor, set is
/// a plain `LDAR`/`STLR`. Bit 21 (`o1`) selects the pair forms, and bit 15
/// (`o0`) adds acquire or release ordering.
fn exclusive(encoding: u32) -> (r: Instruction)
    ensures
        r.operands_valid(),
        r == spec_exclusive(encoding),
{
    proof { lemma2_to64(); }
    let size_field = bits(encoding, 31, 30);
    let is_load = bits(encoding, 22, 22) == 1;
    let is_exclusive = bits(encoding, 23, 23) == 0;
    let is_pair = bits(encoding, 21, 21) == 1;
    let is_ordered = bits(encoding, 15, 15) == 1;

    let size = match exclusive_size(size_field, is_pair) {
        Some(size) => size,
        None => return unallocated(encoding),
    };
    // The plain acquire/release forms have no pair encoding, and a form that
    // is neither exclusive nor ordered is not allocated.
    let is_unallocated_shape = is_pair && !is_exclusive;
    if is_unallocated_shape || (!is_exclusive && !is_ordered) {
        return unallocated(encoding);
    }

    let ordering = MemoryOrdering {
        is_acquire: is_load && is_ordered,
        is_release: !is_load && is_ordered,
        is_exclusive,
    };
    // Rs is a status register only on an exclusive store; elsewhere the field
    // reads as 31 and means nothing. ZR cannot stand in for "absent": the
    // status register may legitimately be WZR.
    let rs = if is_exclusive && !is_load {
        Some(Gpr::from_index_zr(register_field(encoding, 16)))
    } else {
        None
    };
    let rt2 = if is_pair { Some(Gpr::from_index_zr(register_field(encoding, 10))) } else { None };
    let form = Form::LoadStore {
        rt: Gpr::from_index_zr(register_field(encoding, 0)),
        rt2,
        rs,
        addr: AddrMode::BaseOnly { base: Gpr::from_index_sp(register_field(encoding, 5)) },
        size,
        ordering,
    };

    let op = if is_load { Op::Ldar } else { Op::Stlr };
    Instruction::new(encoding, op, form).with_width(RegWidth::from_sf(size_field == 0b11))
}

/// The access width of an exclusive form.
///
/// The pair forms reuse the size field to mean word or doubleword rather than
/// byte or halfword, so `LDXP W0, W1` and `LDXRB W0` share a size field of 00
/// with different widths.
#[verifier::allow_in_spec]
pub fn exclusive_size(size_field: u32, is_pair: bool) -> (r: Option<AccessSize>)
    requires
        size_field < 4,
    returns
        (if !is_pair {
            Some(AccessSize { bytes: if size_field == 0 { 1 } else if size_field == 1 { 2 } else if size_field == 2 { 4 } else { 8 }, is_signed: false })
        } else if size_field == 2 {
            Some(AccessSize::word())
        } else if size_field == 3 {
            Some(AccessSize::doubleword())
        } else {
            None
        }),
{
    if !is_pair {
        let bytes: u8 = if size_field == 0 { 1 } else if size_field == 1 { 2 } else if size_field == 2 { 4 } else { 8 };
        return Some(AccessSize { bytes, is_signed: false });
    }
    if size_field == 0b10 {
        Some(AccessSize::word())
    } else if size_field == 0b11 {
        Some(AccessSize::doubleword())
    } else {
        None
    }
}

} // verus!
