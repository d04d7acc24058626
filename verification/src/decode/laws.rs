//! Laws of the decoder against the A64 encoding tables.
//!
//! Each law is stated over the instruction word's bits, as the ARM ARM's
//! encoding diagrams give them, and says what [`super::decode`] makes of
//! every word that matches.
use vstd::prelude::*;
use vstd::arithmetic::power2::pow2;
use super::field::{field, lemma_field_is_masked};
use super::instruction::Form;
use super::op::Op;
use super::operand::{Cond, RegWidth, RoundMode, ShiftKind, ShiftedReg};
use super::group::simd_fp::spec_data_processing_simd_fp;
use super::group::simd_fp::scalar::{spec_data_processing as spec_scalar_data_processing, spec_integer_conversion, spec_two_source as spec_fp_two_source, float_size};
use super::address::{AccessSize, AddrMode, MemoryOrdering, WriteBack};
use super::group::loads_stores::{spec_loads_and_stores, spec_single_register, spec_single_register_address, spec_transfer};
use super::{lemma_decode_is_by_group, spec_decode, EncodingGroup};
use super::group::dp_immediate::spec_data_processing_immediate;
use super::group::branch_system::spec_branches_exceptions_system;
use super::field::sign_extended;
use super::group::dp_register::{
    spec_data_processing_register, spec_two_source, spec_two_source_or_one_source, plain_register, width_of, zr_at,
    spec_one_source, spec_three_source, spec_conditional_select, spec_logical_shifted, spec_add_sub_shifted,
};
use crate::reg::Gpr;

verus! {

/// The general register a five-bit slot names where slot 31 is the zero
/// register.
pub open spec fn zero_or_x(slot: u32) -> Gpr {
    if slot == 31 { Gpr::ZR } else { Gpr::X(slot as u8) }
}

/// The three-register, unshifted operands of a word: `Rd` at bits 4..0, `Rn`
/// at 9..5 and `Rm` at 20..16, slot 31 the zero register.
pub open spec fn three_registers(word: u32) -> Form {
    Form::RegShifted {
        rd: zero_or_x(word & 31),
        rn: zero_or_x((word >> 5) & 31),
        rm: ShiftedReg { reg: zero_or_x((word >> 16) & 31), kind: ShiftKind::Lsl, amount: 0 },
    }
}

/// Data processing (2 source), `sf 0 0 11010110 Rm opcode Rn Rd`: opcode
/// `000010` is `UDIV`, `000011` `SDIV`, `001000` `LSLV`, `001001` `LSRV`,
/// `001010` `ASRV` and `001011` `RORV`, at the width `sf` selects, on `Rd`,
/// `Rn` and `Rm`, setting no flags; every other opcode is unallocated.
pub proof fn lemma_two_source_table(word: u32)
    requires
        word & 0x7fe0_0000 == 0x1ac0_0000,
    ensures
        ({
            let insn = spec_decode(word);
            let opcode = (word >> 10) & 0x3f;
            &&& opcode == 2 ==> insn.op == Op::Udiv
            &&& opcode == 3 ==> insn.op == Op::Sdiv
            &&& opcode == 8 ==> insn.op == Op::Lslv
            &&& opcode == 9 ==> insn.op == Op::Lsrv
            &&& opcode == 10 ==> insn.op == Op::Asrv
            &&& opcode == 11 ==> insn.op == Op::Rorv
            &&& !(opcode == 2 || opcode == 3 || (8 <= opcode <= 11)) ==> insn.op == Op::Unallocated
            &&& (opcode == 2 || opcode == 3 || (8 <= opcode <= 11)) ==> {
                &&& insn.form == three_registers(word)
                &&& insn.width == (if word >> 31 == 1 { RegWidth::X64 } else { RegWidth::W32 })
                &&& !insn.sets_flags
            }
            &&& insn.encoding == word
        }),
{
    lemma_decode_is_by_group(word);
    lemma_register_fields(word);
    assert(word & 0x7fe0_0000 == 0x1ac0_0000 ==> {
        &&& (word >> 25) & 15 == 13
        &&& (word >> 28) & 1 == 1
        &&& (word >> 21) & 15 == 6
        &&& (word >> 29) & 1 == 0
        &&& (word >> 30) & 1 == 0
    }) by (bit_vector);
    assert(field(word, 28, 25) == 13);
    assert(EncodingGroup::of(word) == EncodingGroup::DataProcessingRegister);
    assert(spec_decode(word) == spec_data_processing_register(word));
    assert(field(word, 28, 28) == 1 && field(word, 24, 21) == 6);
    assert(spec_data_processing_register(word) == spec_two_source_or_one_source(word));
    assert(spec_decode(word) == spec_two_source(word));
    let opcode = (word >> 10) & 0x3f;
    assert(field(word, 15, 10) == opcode);
    assert(plain_register(word) == three_registers(word)) by {
        assert(field(word, 4, 0) == word & 31);
        assert(field(word, 9, 5) == (word >> 5) & 31);
        assert(field(word, 20, 16) == (word >> 16) & 31);
    }
    assert(width_of(word) == (if word >> 31 == 1 { RegWidth::X64 } else { RegWidth::W32 }));
}

/// The bit fields the laws read, as shifts and masks, and the bounds of
/// those shifted and masked values.
proof fn lemma_register_fields(word: u32)
    ensures
        field(word, 28, 25) == (word >> 25) & 15,
        field(word, 28, 28) == (word >> 28) & 1,
        field(word, 24, 21) == (word >> 21) & 15,
        field(word, 23, 21) == (word >> 21) & 7,
        field(word, 23, 22) == (word >> 22) & 3,
        field(word, 21, 21) == (word >> 21) & 1,
        field(word, 29, 29) == (word >> 29) & 1,
        field(word, 30, 30) == (word >> 30) & 1,
        field(word, 30, 29) == (word >> 29) & 3,
        field(word, 31, 31) == word >> 31,
        field(word, 15, 10) == (word >> 10) & 0x3f,
        field(word, 15, 15) == (word >> 15) & 1,
        field(word, 15, 12) == (word >> 12) & 15,
        field(word, 11, 10) == (word >> 10) & 3,
        field(word, 20, 16) == (word >> 16) & 31,
        field(word, 14, 10) == (word >> 10) & 31,
        field(word, 9, 5) == (word >> 5) & 31,
        field(word, 4, 0) == word & 31,
        field(word, 25, 23) == (word >> 23) & 7,
        field(word, 22, 22) == (word >> 22) & 1,
        field(word, 21, 10) == (word >> 10) & 0xfff,
        field(word, 30, 26) == (word >> 26) & 31,
        field(word, 25, 0) == word & 0x3ff_ffff,
        field(word, 26, 26) == (word >> 26) & 1,
        field(word, 29, 28) == (word >> 28) & 3,
        field(word, 24, 24) == (word >> 24) & 1,
        field(word, 31, 30) == (word >> 30) & 3,
        field(word, 20, 19) == (word >> 19) & 3,
        field(word, 18, 16) == (word >> 16) & 7,
        word & 31 < 32,
        (word >> 5) & 31 < 32,
        (word >> 16) & 31 < 32,
        (word >> 10) & 31 < 32,
        (word >> 30) & 1 <= 1,
        (word >> 29) & 1 <= 1,
        (word >> 22) & 1 <= 1,
        (word >> 10) & 1 <= 1,
        (word >> 10) & 3 <= 1 ==> (word >> 10) & 3 == (word >> 10) & 1,
        word & 0x3ff_ffff < 0x400_0000,
        ((word >> 10) & 0x3f) as u8 == (word >> 10) & 0x3f,
        ((((word >> 10) & 0xfff) as u64) << 12u64) == (((word >> 10) & 0xfff) as u64) * 4096,
        (word >> 25) & 7 == 5 ==> ((word >> 25) & 15 == 5 || (word >> 25) & 15 == 13),
        word & 0x3f00_0000 == 0x3900_0000 ==> {
            &&& (word >> 25) & 15 == 12
            &&& (word >> 26) & 1 == 0
            &&& (word >> 28) & 3 == 3
            &&& (word >> 24) & 1 == 1
        },
        (word >> 30) & 3 == word >> 30 && word >> 30 < 4 && (word >> 22) & 3 < 4,
        (((word >> 10) & 0xfff) as u64) < 4096,
        word & 0xff20_0c00 == 0x1e20_0800 ==> {
            &&& (word >> 25) & 15 == 15
            &&& (word >> 28) & 1 == 1
            &&& (word >> 29) & 1 == 0
            &&& (word >> 31) == 0
            &&& (word >> 24) & 1 == 0
            &&& (word >> 21) & 1 == 1
            &&& (word >> 10) & 0x3f != 0
            &&& (word >> 10) & 3 == 2
        },
        word & 0x7f20_fc00 == 0x1e20_0000 ==> {
            &&& (word >> 25) & 15 == 15
            &&& (word >> 28) & 1 == 1
            &&& (word >> 29) & 1 == 0
            &&& (word >> 24) & 1 == 0
            &&& (word >> 21) & 1 == 1
            &&& (word >> 10) & 0x3f == 0
        },
{
    lemma_field_is_masked(word, 28, 25);
    lemma_field_is_masked(word, 28, 28);
    lemma_field_is_masked(word, 24, 21);
    lemma_field_is_masked(word, 23, 21);
    lemma_field_is_masked(word, 23, 22);
    lemma_field_is_masked(word, 21, 21);
    lemma_field_is_masked(word, 29, 29);
    lemma_field_is_masked(word, 30, 30);
    lemma_field_is_masked(word, 30, 29);
    lemma_field_is_masked(word, 31, 31);
    lemma_field_is_masked(word, 15, 10);
    lemma_field_is_masked(word, 15, 15);
    lemma_field_is_masked(word, 15, 12);
    lemma_field_is_masked(word, 11, 10);
    lemma_field_is_masked(word, 20, 16);
    lemma_field_is_masked(word, 14, 10);
    lemma_field_is_masked(word, 9, 5);
    lemma_field_is_masked(word, 4, 0);
    lemma_field_is_masked(word, 25, 23);
    lemma_field_is_masked(word, 22, 22);
    lemma_field_is_masked(word, 21, 10);
    lemma_field_is_masked(word, 30, 26);
    lemma_field_is_masked(word, 25, 0);
    lemma_field_is_masked(word, 26, 26);
    lemma_field_is_masked(word, 29, 28);
    lemma_field_is_masked(word, 24, 24);
    lemma_field_is_masked(word, 31, 30);
    lemma_field_is_masked(word, 20, 19);
    lemma_field_is_masked(word, 18, 16);
    assert({
        &&& ((1u32 << 1u32) - 1) as u32 == 1
        &&& ((1u32 << 2u32) - 1) as u32 == 3
        &&& ((1u32 << 3u32) - 1) as u32 == 7
        &&& ((1u32 << 4u32) - 1) as u32 == 15
        &&& ((1u32 << 5u32) - 1) as u32 == 31
        &&& ((1u32 << 6u32) - 1) as u32 == 0x3f
        &&& ((1u32 << 12u32) - 1) as u32 == 0xfff
        &&& ((1u32 << 26u32) - 1) as u32 == 0x3ff_ffff
        &&& (word >> 31) & 1 == word >> 31
        &&& (word >> 0u32) & 31 == word & 31
        &&& (word >> 0u32) & 0x3ff_ffff == word & 0x3ff_ffff
        &&& word & 31 < 32
        &&& (word >> 5) & 31 < 32
        &&& (word >> 16) & 31 < 32
        &&& (word >> 10) & 31 < 32
        &&& (word >> 30) & 1 <= 1
        &&& (word >> 29) & 1 <= 1
        &&& (word >> 22) & 1 <= 1
        &&& (word >> 10) & 1 <= 1
        &&& ((word >> 10) & 3 <= 1 ==> (word >> 10) & 3 == (word >> 10) & 1)
        &&& word & 0x3ff_ffff < 0x400_0000
        &&& ((word >> 10) & 0x3f) as u8 == (word >> 10) & 0x3f
        &&& ((((word >> 10) & 0xfff) as u64) << 12u64) == (((word >> 10) & 0xfff) as u64) * 4096
        &&& ((word >> 25) & 7 == 5 ==> ((word >> 25) & 15 == 5 || (word >> 25) & 15 == 13))
        &&& (word & 0x3f00_0000 == 0x3900_0000 ==> {
            &&& (word >> 25) & 15 == 12
            &&& (word >> 26) & 1 == 0
            &&& (word >> 28) & 3 == 3
            &&& (word >> 24) & 1 == 1
        })
        &&& (word >> 30) & 3 == word >> 30 && word >> 30 < 4 && (word >> 22) & 3 < 4
        &&& (((word >> 10) & 0xfff) as u64) < 4096
        &&& (word & 0xff20_0c00 == 0x1e20_0800 ==> {
            &&& (word >> 25) & 15 == 15
            &&& (word >> 28) & 1 == 1
            &&& (word >> 29) & 1 == 0
            &&& (word >> 31) == 0
            &&& (word >> 24) & 1 == 0
            &&& (word >> 21) & 1 == 1
            &&& (word >> 10) & 0x3f != 0
            &&& (word >> 10) & 3 == 2
        })
        &&& (word & 0x7f20_fc00 == 0x1e20_0000 ==> {
            &&& (word >> 25) & 15 == 15
            &&& (word >> 28) & 1 == 1
            &&& (word >> 29) & 1 == 0
            &&& (word >> 24) & 1 == 0
            &&& (word >> 21) & 1 == 1
            &&& (word >> 10) & 0x3f == 0
        })
    }) by (bit_vector);
}

/// Words whose bits 27..25 are `101` decode by the data processing
/// (register) table.
proof fn lemma_register_group(word: u32)
    requires
        (word >> 25) & 7 == 5,
    ensures
        spec_decode(word) == spec_data_processing_register(word),
{
    lemma_decode_is_by_group(word);
    lemma_register_fields(word);
    assert(EncodingGroup::of(word) == EncodingGroup::DataProcessingRegister);
}

/// The operand width the `sf` bit, bit 31, selects.
pub open spec fn sf_width(word: u32) -> RegWidth {
    if word >> 31 == 1 { RegWidth::X64 } else { RegWidth::W32 }
}

/// Data processing (1 source), `sf 1 0 11010110 00000 opcode Rn Rd`: opcode
/// `000000` is `RBIT`, `000001` `REV16`, `000010` `REV32` at 64 bits and
/// `REV` at 32, `000011` `REV` at 64 bits only, `000100` `CLZ` and `000101`
/// `CLS`, at the width `sf` selects, reading `Rn` and writing `Rd`; every
/// other opcode is unallocated.
pub proof fn lemma_one_source_table(word: u32)
    requires
        word & 0x7fff_0000 == 0x5ac0_0000,
    ensures
        ({
            let insn = spec_decode(word);
            let opcode = (word >> 10) & 0x3f;
            let is_wide = word >> 31 == 1;
            let known = opcode <= 2 || opcode == 4 || opcode == 5 || (opcode == 3 && is_wide);
            &&& opcode == 0 ==> insn.op == Op::Rbit
            &&& opcode == 1 ==> insn.op == Op::Rev16
            &&& opcode == 2 ==> insn.op == (if is_wide { Op::Rev32 } else { Op::Rev })
            &&& opcode == 3 && is_wide ==> insn.op == Op::Rev
            &&& opcode == 4 ==> insn.op == Op::Clz
            &&& opcode == 5 ==> insn.op == Op::Cls
            &&& !known ==> insn.op == Op::Unallocated
            &&& known ==> {
                &&& insn.form == (Form::RegShifted {
                    rd: zero_or_x(word & 31),
                    rn: zero_or_x((word >> 5) & 31),
                    rm: ShiftedReg { reg: zero_or_x((word >> 5) & 31), kind: ShiftKind::Lsl, amount: 0 },
                })
                &&& insn.width == sf_width(word)
                &&& !insn.sets_flags
            }
        }),
{
    lemma_register_fields(word);
    assert(word & 0x7fff_0000 == 0x5ac0_0000 ==> {
        &&& (word >> 25) & 7 == 5
        &&& (word >> 28) & 1 == 1
        &&& (word >> 21) & 15 == 6
        &&& (word >> 29) & 1 == 0
        &&& (word >> 30) & 1 == 1
        &&& (word >> 16) & 31 == 0
    }) by (bit_vector);
    lemma_register_group(word);
    assert(spec_decode(word) == spec_one_source(word));
    assert(zr_at(word, 0) == zero_or_x(word & 31));
    assert(zr_at(word, 5) == zero_or_x((word >> 5) & 31));
}

/// Data processing (3 source), `sf 00 11011 op31 Rm o0 Ra Rn Rd`: `op31`
/// `000` is `MADD` (`o0` clear) or `MSUB`; at 64 bits only, `001` is
/// `SMADDL` or `SMSUBL`, `010` with `o0` clear `SMULH`, `101` `UMADDL` or
/// `UMSUBL`, and `110` with `o0` clear `UMULH`; the operands are `Rd`, `Rn`,
/// `Rm` and `Ra`; every other combination is unallocated.
pub proof fn lemma_three_source_table(word: u32)
    requires
        word & 0x7f00_0000 == 0x1b00_0000,
    ensures
        ({
            let insn = spec_decode(word);
            let op31 = (word >> 21) & 7;
            let o0 = (word >> 15) & 1;
            let is_wide = word >> 31 == 1;
            let known = op31 == 0 || (is_wide && (op31 == 1 || op31 == 5 || ((op31 == 2 || op31 == 6) && o0 == 0)));
            &&& op31 == 0 ==> insn.op == (if o0 == 0 { Op::Madd } else { Op::Msub })
            &&& is_wide && op31 == 1 ==> insn.op == (if o0 == 0 { Op::Smaddl } else { Op::Smsubl })
            &&& is_wide && op31 == 2 && o0 == 0 ==> insn.op == Op::Smulh
            &&& is_wide && op31 == 5 ==> insn.op == (if o0 == 0 { Op::Umaddl } else { Op::Umsubl })
            &&& is_wide && op31 == 6 && o0 == 0 ==> insn.op == Op::Umulh
            &&& !known ==> insn.op == Op::Unallocated
            &&& known ==> {
                &&& insn.form == (Form::ThreeSource {
                    rd: zero_or_x(word & 31),
                    rn: zero_or_x((word >> 5) & 31),
                    rm: zero_or_x((word >> 16) & 31),
                    ra: zero_or_x((word >> 10) & 31),
                })
                &&& insn.width == sf_width(word)
                &&& !insn.sets_flags
            }
        }),
{
    lemma_register_fields(word);
    assert(word & 0x7f00_0000 == 0x1b00_0000 ==> {
        &&& (word >> 25) & 7 == 5
        &&& (word >> 28) & 1 == 1
        &&& (word >> 21) & 15 >= 8
        &&& (word >> 29) & 3 == 0
    }) by (bit_vector);
    lemma_register_group(word);
    assert(spec_decode(word) == spec_three_source(word));
    assert(zr_at(word, 0) == zero_or_x(word & 31));
    assert(zr_at(word, 5) == zero_or_x((word >> 5) & 31));
    assert(zr_at(word, 16) == zero_or_x((word >> 16) & 31));
    assert(zr_at(word, 10) == zero_or_x((word >> 10) & 31));
}

/// Conditional select, `sf op 0 11010100 Rm cond 0 o2 Rn Rd`: `op` clear
/// is `CSEL` (`o2` clear) or `CSINC`, `op` set `CSINV` or `CSNEG`, choosing
/// between `Rn` and `Rm` by `cond` into `Rd`.
pub proof fn lemma_conditional_select_table(word: u32)
    requires
        word & 0x3fe0_0800 == 0x1a80_0000,
    ensures
        ({
            let insn = spec_decode(word);
            let negating = (word >> 30) & 1 == 1;
            let incrementing = (word >> 10) & 1 == 1;
            &&& insn.op == (if !negating {
                if !incrementing { Op::Csel } else { Op::Csinc }
            } else {
                if !incrementing { Op::Csinv } else { Op::Csneg }
            })
            &&& insn.form == (Form::CondSelect {
                rd: zero_or_x(word & 31),
                rn: zero_or_x((word >> 5) & 31),
                rm: zero_or_x((word >> 16) & 31),
                cond: Cond::from_bits(((word >> 12) & 15) as u8),
            })
            &&& insn.width == sf_width(word)
            &&& !insn.sets_flags
        }),
{
    lemma_register_fields(word);
    assert(word & 0x3fe0_0800 == 0x1a80_0000 ==> {
        &&& (word >> 25) & 7 == 5
        &&& (word >> 28) & 1 == 1
        &&& (word >> 21) & 15 == 4
        &&& (word >> 29) & 1 == 0
        &&& (word >> 10) & 3 <= 1
    }) by (bit_vector);
    lemma_register_group(word);
    assert(spec_decode(word) == spec_conditional_select(word));
    assert(zr_at(word, 0) == zero_or_x(word & 31));
    assert(zr_at(word, 5) == zero_or_x((word >> 5) & 31));
    assert(zr_at(word, 16) == zero_or_x((word >> 16) & 31));
}

/// Logical (shifted register), `sf opc 01010 shift N Rm imm6 Rn Rd`: `opc`
/// `00` is `AND` (`N` clear) or `BIC`, `01` `ORR` or `ORN`, `10` `EOR` or
/// `EON`, and `11` `AND` or `BIC` setting the flags; a 32-bit form shifting
/// by 32 or more is unallocated.
pub proof fn lemma_logical_shifted_table(word: u32)
    requires
        word & 0x1f00_0000 == 0x0a00_0000,
    ensures
        ({
            let insn = spec_decode(word);
            let opc = (word >> 29) & 3;
            let negated = (word >> 21) & 1 == 1;
            let allocated = word >> 31 == 1 || (word >> 10) & 0x3f < 32;
            &&& allocated ==> insn.op == (if opc == 0 || opc == 3 {
                if negated { Op::Bic } else { Op::And }
            } else if opc == 1 {
                if negated { Op::Orn } else { Op::Orr }
            } else {
                if negated { Op::Eon } else { Op::Eor }
            })
            &&& allocated ==> insn.sets_flags == (opc == 3)
            &&& allocated ==> insn.width == sf_width(word)
            &&& !allocated ==> insn.op == Op::Unallocated
        }),
{
    lemma_register_fields(word);
    assert(word & 0x1f00_0000 == 0x0a00_0000 ==> {
        &&& (word >> 25) & 7 == 5
        &&& (word >> 28) & 1 == 0
        &&& (word >> 21) & 15 < 8
    }) by (bit_vector);
    lemma_register_group(word);
    assert(spec_decode(word) == spec_logical_shifted(word));
}

/// Add/sub (shifted register), `sf op S 01011 shift 0 Rm imm6 Rn Rd`: `op`
/// clear is `ADD`, set `SUB`, and `S` sets the flags; a `ROR` shift, or a
/// 32-bit form shifting by 32 or more, is unallocated.
pub proof fn lemma_add_sub_shifted_table(word: u32)
    requires
        word & 0x1f20_0000 == 0x0b00_0000,
    ensures
        ({
            let insn = spec_decode(word);
            let allocated = (word >> 22) & 3 != 3 && (word >> 31 == 1 || (word >> 10) & 0x3f < 32);
            &&& allocated ==> insn.op == (if (word >> 30) & 1 == 1 { Op::Sub } else { Op::Add })
            &&& allocated ==> insn.sets_flags == ((word >> 29) & 1 == 1)
            &&& allocated ==> insn.width == sf_width(word)
            &&& !allocated ==> insn.op == Op::Unallocated
        }),
{
    lemma_register_fields(word);
    assert(word & 0x1f20_0000 == 0x0b00_0000 ==> {
        &&& (word >> 25) & 7 == 5
        &&& (word >> 28) & 1 == 0
        &&& (word >> 21) & 15 >= 8
        &&& ((word >> 21) & 15) % 2 == 0
    }) by (bit_vector);
    lemma_register_group(word);
    assert(spec_decode(word) == spec_add_sub_shifted(word));
}

/// The general register a five-bit slot names where slot 31 is the stack
/// pointer.
pub open spec fn sp_or_x(slot: u32) -> Gpr {
    if slot == 31 { Gpr::SP } else { Gpr::X(slot as u8) }
}

/// Add/sub (immediate), `sf op S 100010 sh imm12 Rn Rd`: `op` clear is
/// `ADD`, set `SUB`, and `S` sets the flags; the immediate is `imm12`,
/// shifted left by twelve when `sh` is set; `Rn` names `SP` in slot 31, and
/// so does `Rd` unless the flags are set, when it names the zero register.
pub proof fn lemma_add_sub_immediate_table(word: u32)
    requires
        word & 0x1f80_0000 == 0x1100_0000,
    ensures
        ({
            let insn = spec_decode(word);
            let sets_flags = (word >> 29) & 1 == 1;
            let imm12 = ((word >> 10) & 0xfff) as u64;
            &&& insn.op == (if (word >> 30) & 1 == 1 { Op::Sub } else { Op::Add })
            &&& insn.sets_flags == sets_flags
            &&& insn.width == sf_width(word)
            &&& insn.form == (Form::RegImm {
                rd: if sets_flags { zero_or_x(word & 31) } else { sp_or_x(word & 31) },
                rn: sp_or_x((word >> 5) & 31),
                imm: if (word >> 22) & 1 == 1 { (imm12 * 4096) as u64 } else { imm12 },
            })
        }),
{
    lemma_decode_is_by_group(word);
    lemma_register_fields(word);
    assert(word & 0x1f80_0000 == 0x1100_0000 ==> {
        &&& (word >> 25) & 15 == 8 || (word >> 25) & 15 == 9
        &&& (word >> 23) & 7 == 2
    }) by (bit_vector);
    assert(EncodingGroup::of(word) == EncodingGroup::DataProcessingImmediate);
    assert(spec_decode(word) == spec_data_processing_immediate(word));
}

/// Unconditional branch (immediate), `op 00101 imm26`: `op` clear is `B`,
/// set `BL`, to the instruction `imm26` words away, `imm26` read as a
/// signed 26-bit number. `RET` is `1101011 0010 11111 000000 Rn 00000`,
/// returning through `Rn`.
pub proof fn lemma_branch_table(word: u32)
    ensures
        word & 0x7c00_0000 == 0x1400_0000 ==> {
            let imm26 = (word & 0x3ff_ffff) as int;
            let words = if imm26 >= 0x200_0000 { imm26 - 0x400_0000 } else { imm26 };
            &&& spec_decode(word).op == (if word >> 31 == 1 { Op::Bl } else { Op::B })
            &&& spec_decode(word).form == (Form::Branch { offset: (4 * words) as i64 })
        },
        word & 0xffff_fc1f == 0xd65f_0000 ==> {
            &&& spec_decode(word).op == Op::Ret
            &&& spec_decode(word).form == (Form::BranchIndirect { rn: zero_or_x((word >> 5) & 31) })
        },
{
    lemma_decode_is_by_group(word);
    lemma_register_fields(word);
    assert({
        &&& word & 0x7c00_0000 == 0x1400_0000 ==> ((word >> 25) & 15 == 10 || (word >> 25) & 15 == 11)
            && (word >> 26) & 31 == 5
        &&& word & 0xffff_fc1f == 0xd65f_0000 ==> (word >> 25) & 15 == 11 && (word >> 26) & 31 != 5
    }) by (bit_vector);
    if word & 0x7c00_0000 == 0x1400_0000 {
        assert(EncodingGroup::of(word) == EncodingGroup::BranchesExceptionsSystem);
        assert(spec_decode(word) == spec_branches_exceptions_system(word));
        let imm26 = word & 0x3ff_ffff;
        vstd::arithmetic::power2::lemma2_to64();
        assert(imm26 as nat % pow2(26) == imm26) by {
            vstd::arithmetic::div_mod::lemma_small_mod(imm26 as nat, pow2(26));
        }
        assert(sign_extended(imm26, 26) == if imm26 >= 0x200_0000 { imm26 - 0x400_0000 } else { imm26 as int });
    }
    if word & 0xffff_fc1f == 0xd65f_0000 {
        assert(EncodingGroup::of(word) == EncodingGroup::BranchesExceptionsSystem);
        assert(spec_decode(word) == spec_branches_exceptions_system(word));
    }
}

/// Load/store register (unsigned immediate), `size 111 0 01 opc imm12 Rn
/// Rt`: `opc` `00` stores and `01` loads `2^size` bytes, zero-extending, at
/// 64 bits for a doubleword and 32 otherwise; `10` loads sign-extending to
/// 64 bits and `11` to 32 bits, where a signed form exists (not for a
/// doubleword, nor a word to 32 bits); `size 11 opc 10` is `PRFM`. The
/// address is the base `Rn`, `SP` in slot 31, plus `imm12` scaled by the
/// access size, with no write-back; the data register is `Rt`.
pub proof fn lemma_unsigned_offset_table(word: u32)
    requires
        word & 0x3f00_0000 == 0x3900_0000,
    ensures
        ({
            let insn = spec_decode(word);
            let size = word >> 30;
            let opc = (word >> 22) & 3;
            let bytes: u8 = if size == 0 { 1 } else if size == 1 { 2 } else if size == 2 { 4 } else { 8 };
            let addr = AddrMode::Immediate {
                base: sp_or_x((word >> 5) & 31),
                offset: ((((word >> 10) & 0xfff) as u64) * bytes as u64) as i64,
                writeback: WriteBack::NoUpdate,
            };
            let transfer = |is_signed: bool| Form::LoadStore {
                rt: zero_or_x(word & 31),
                rt2: None,
                rs: None,
                addr,
                size: AccessSize { bytes, is_signed },
                ordering: MemoryOrdering { is_acquire: false, is_release: false, is_exclusive: false },
            };
            &&& opc == 0 ==> insn.op == Op::Str && insn.form == transfer(false) && insn.width == (if size == 3 { RegWidth::X64 } else { RegWidth::W32 })
            &&& opc == 1 ==> insn.op == Op::Ldr && insn.form == transfer(false) && insn.width == (if size == 3 { RegWidth::X64 } else { RegWidth::W32 })
            &&& opc == 2 && size < 3 ==> insn.op == Op::Ldr && insn.form == transfer(true) && insn.width == RegWidth::X64
            &&& opc == 3 && size < 2 ==> insn.op == Op::Ldr && insn.form == transfer(true) && insn.width == RegWidth::W32
            &&& opc == 3 && size >= 2 ==> insn.op == Op::Unallocated
            &&& opc == 2 && size == 3 ==> insn.op == Op::Prfm
            &&& !insn.sets_flags
        }),
{
    lemma_decode_is_by_group(word);
    lemma_register_fields(word);
    assert(EncodingGroup::of(word) == EncodingGroup::LoadsAndStores);
    assert(spec_decode(word) == spec_loads_and_stores(word));
    assert(spec_loads_and_stores(word) == spec_single_register(word));
    let size = word >> 30;
    let imm12 = ((word >> 10) & 0xfff) as u64;
    assert(field(word, 31, 30) == size);
    vstd::arithmetic::power2::lemma2_to64();
    let bytes: u8 = if size == 0 { 1 } else if size == 1 { 2 } else if size == 2 { 4 } else { 8 };
    assert((imm12 << size) == imm12 * bytes as u64) by {
        vstd::bits::lemma_u64_shl_is_mul(imm12, size as u64);
        assert(pow2(size as nat) == bytes);
        assert(imm12 * bytes < 0x1_0000_0000_0000_0000) by (nonlinear_arith)
            requires imm12 < 4096, bytes <= 8;
    }
}

/// Conversion between FP and integer, `sf 0 0 11110 ftype 1 rmode opcode
/// 000000 Rn Rd`, for a valid `ftype` (not `10`): `opcode` `000` converts to
/// a signed integer and `001` to an unsigned one, rounding to nearest
/// (`rmode` `00`), toward plus (`01`) or minus infinity (`10`), or toward zero
/// (`11`, `FCVTZS`/`FCVTZU`); with `rmode` `00`, `010` is `SCVTF` and `011`
/// `UCVTF`, rounding as FPCR says, and `100`/`101` convert rounding to
/// nearest with ties away; the integer width is what `sf` selects. Opcodes
/// `110`/`111` are the `FMOV` transfers; every other combination is
/// unallocated.
pub proof fn lemma_integer_conversion_table(word: u32)
    requires
        word & 0x7f20_fc00 == 0x1e20_0000,
        (word >> 22) & 3 != 2,
    ensures
        ({
            let insn = spec_decode(word);
            let rmode = (word >> 19) & 3;
            let opcode = (word >> 16) & 7;
            &&& opcode <= 1 && rmode == 3 ==> insn.op == (if opcode == 0 { Op::Fcvtzs } else { Op::Fcvtzu })
                && insn.round == RoundMode::Zero
            &&& opcode <= 1 && rmode < 3 ==> insn.op == (if opcode == 0 { Op::Fcvts } else { Op::Fcvtu })
                && insn.round == (if rmode == 0 { RoundMode::Nearest } else if rmode == 1 { RoundMode::Plus } else { RoundMode::Minus })
            &&& rmode == 0 && (opcode == 2 || opcode == 3) ==> insn.op == (if opcode == 2 { Op::Scvtf } else { Op::Ucvtf })
                && insn.round == RoundMode::Current
            &&& rmode == 0 && (opcode == 4 || opcode == 5) ==> insn.op == (if opcode == 4 { Op::Fcvts } else { Op::Fcvtu })
                && insn.round == RoundMode::NearestAway
            &&& opcode <= 5 && (opcode <= 1 || rmode == 0) ==> insn.width == sf_width(word)
            &&& (opcode >= 2 && rmode != 0 && !(opcode >= 6 && rmode == 1)) ==> insn.op == Op::Unallocated
        }),
{
    lemma_decode_is_by_group(word);
    lemma_register_fields(word);
    assert(EncodingGroup::of(word) == EncodingGroup::DataProcessingSimdFp);
    assert(spec_decode(word) == spec_data_processing_simd_fp(word));
    assert(spec_decode(word) == spec_scalar_data_processing(word));
    assert(spec_decode(word) == spec_integer_conversion(word));
}

/// Floating-point data processing (2 source), `0 0 0 11110 ftype 1 Rm
/// opcode 10 Rn Rd`, for a valid `ftype` (not `10`): `opcode` `0000` is
/// `FMUL`, `0001` `FDIV`, `0010` `FADD`, `0011` `FSUB`, `0100` `FMAX`,
/// `0101` `FMIN`, `0110` `FMAXNM`, `0111` `FMINNM` and `1000` `FNMUL`; every
/// other opcode is unallocated.
pub proof fn lemma_fp_two_source_table(word: u32)
    requires
        word & 0xff20_0c00 == 0x1e20_0800,
        (word >> 22) & 3 != 2,
    ensures
        ({
            let op = spec_decode(word).op;
            let opcode = (word >> 12) & 15;
            &&& opcode == 0 ==> op == Op::Fmul
            &&& opcode == 1 ==> op == Op::Fdiv
            &&& opcode == 2 ==> op == Op::Fadd
            &&& opcode == 3 ==> op == Op::Fsub
            &&& opcode == 4 ==> op == Op::Fmax
            &&& opcode == 5 ==> op == Op::Fmin
            &&& opcode == 6 ==> op == Op::Fmaxnm
            &&& opcode == 7 ==> op == Op::Fminnm
            &&& opcode == 8 ==> op == Op::Fnmul
            &&& opcode > 8 ==> op == Op::Unallocated
        }),
{
    lemma_decode_is_by_group(word);
    lemma_register_fields(word);
    assert(EncodingGroup::of(word) == EncodingGroup::DataProcessingSimdFp);
    assert(spec_decode(word) == spec_data_processing_simd_fp(word));
    assert(spec_decode(word) == spec_scalar_data_processing(word));
    let size = float_size((word >> 22) & 3);
    assert(size is Some);
    assert(spec_decode(word) == spec_fp_two_source(word, size->0));
}

} // verus!
