//! Bit fields of an instruction word.
//!
//! The ARM ARM names every operand of an encoding as an inclusive bit range
//! `[hi:lo]`. [`field`] is that range read as an unsigned number, stated
//! arithmetically so the contracts of the decoders read like the tables they
//! implement.
use vstd::prelude::*;
use vstd::arithmetic::power2::{pow2, lemma2_to64, lemma_pow2_pos};
use vstd::bits::{lemma_u32_shr_is_div, lemma_u32_low_bits_mask_is_mod, lemma_u32_shl_is_mul, lemma_u32_pow2_no_overflow, low_bits_mask};

verus! {

/// The unsigned value of bits `[hi:lo]` of `encoding`, inclusive at both ends.
pub open spec fn field(encoding: u32, hi: nat, lo: nat) -> u32 {
    ((encoding as nat / pow2(lo)) % pow2((hi + 1 - lo) as nat)) as u32
}

/// A five-bit register field starting at `lo` is below 32.
pub proof fn lemma_register_field_bound(encoding: u32, lo: nat)
    ensures
        field(encoding, lo + 4, lo) < 32,
{
    lemma2_to64();
    lemma_pow2_pos(lo);
}

/// Extracts the `[hi:lo]` bit field of an encoding, inclusive at both ends.
pub fn bits(encoding: u32, hi: u32, lo: u32) -> (r: u32)
    requires
        lo <= hi < 32,
        hi - lo < 31,
    ensures
        r == field(encoding, hi as nat, lo as nat),
        r < pow2((hi + 1 - lo) as nat),
{
    let width: u32 = hi - lo + 1;
    proof {
        lemma_u32_shr_is_div(encoding, lo);
        lemma_u32_pow2_no_overflow(width as nat);
        lemma_u32_shl_is_mul(1, width);
        lemma_pow2_pos(width as nat);
        lemma_pow2_pos(lo as nat);
        lemma_u32_low_bits_mask_is_mod(encoding >> lo, width as nat);
        assert(low_bits_mask(width as nat) == pow2(width as nat) - 1) by {
            vstd::bits::lemma_low_bits_mask_unfold(width as nat);
        }
    }
    let mask: u32 = (1u32 << width) - 1;
    let r = (encoding >> lo) & mask;
    proof {
        assert(mask == low_bits_mask(width as nat) as u32);
        assert(r == (encoding >> lo) % (pow2(width as nat) as u32));
    }
    r
}

/// A field is the encoding shifted down to its low bit and masked to its
/// width.
pub proof fn lemma_field_is_masked(encoding: u32, hi: u32, lo: u32)
    requires
        lo <= hi < 32,
        hi - lo < 31,
    ensures
        field(encoding, hi as nat, lo as nat) == (encoding >> lo) & (((1u32 << (hi - lo + 1) as u32) - 1) as u32),
{
    let width = (hi - lo + 1) as u32;
    lemma_u32_shr_is_div(encoding, lo);
    lemma_u32_pow2_no_overflow(width as nat);
    lemma_u32_shl_is_mul(1, width);
    lemma_pow2_pos(width as nat);
    lemma_pow2_pos(lo as nat);
    lemma_u32_low_bits_mask_is_mod(encoding >> lo, width as nat);
    assert(low_bits_mask(width as nat) == pow2(width as nat) - 1) by {
        vstd::bits::lemma_low_bits_mask_unfold(width as nat);
    }
    let mask = ((1u32 << width) - 1) as u32;
    assert(mask == low_bits_mask(width as nat) as u32);
}

/// Bits `[hi:lo]` of an encoding, narrowed to a byte.
#[verifier::allow_in_spec]
pub fn byte_field(encoding: u32, hi: u32, lo: u32) -> (r: u8)
    requires
        lo <= hi < 32,
        hi - lo < 31,
    returns
        field(encoding, hi as nat, lo as nat) as u8,
{
    bits(encoding, hi, lo) as u8
}

/// Bits `[hi:lo]` of an encoding, widened to 64 bits.
#[verifier::allow_in_spec]
pub fn wide_field(encoding: u32, hi: u32, lo: u32) -> (r: u64)
    requires
        lo <= hi < 32,
        hi - lo < 31,
    returns
        field(encoding, hi as nat, lo as nat) as u64,
{
    bits(encoding, hi, lo) as u64
}

/// A five-bit register field as an index below 32.
pub fn register_field(encoding: u32, lo: u32) -> (r: u8)
    requires
        lo <= 27,
    ensures
        r == field(encoding, (lo + 4) as nat, lo as nat),
        r < 32,
{
    let value = bits(encoding, lo + 4, lo);
    proof { lemma_register_field_bound(encoding, lo as nat); }
    value as u8
}


/// The two's-complement value of the low `width` bits of `value`.
pub open spec fn sign_extended(value: u32, width: nat) -> int {
    let low = (value as nat % pow2(width)) as int;
    if low >= pow2((width - 1) as nat) {
        low - pow2(width)
    } else {
        low
    }
}

/// Whether `width` is one of the signed immediate widths A64 encodes.
pub open spec fn is_immediate_width(width: u32) -> bool {
    width == 7 || width == 9 || width == 14 || width == 19 || width == 26
}

/// Sign-extends the low `width` bits of `value`.
pub fn sign_extend(value: u32, width: u32) -> (r: i64)
    requires
        is_immediate_width(width),
        value < pow2(width as nat),
    ensures
        r == sign_extended(value, width as nat),
        -pow2((width - 1) as nat) <= r < pow2((width - 1) as nat),
{
    proof { lemma2_to64(); }
    let shift: u32 = 64 - width;
    let r = ((value as i64) << shift) >> shift;
    proof {
        if width == 7 {
            assert(value < 0x80 ==> (((value as i64) << 57u32) >> 57u32) == (if value >= 0x40 { value - 0x80 } else { value as int })) by (bit_vector);
        } else if width == 9 {
            assert(value < 0x200 ==> (((value as i64) << 55u32) >> 55u32) == (if value >= 0x100 { value - 0x200 } else { value as int })) by (bit_vector);
        } else if width == 14 {
            assert(value < 0x4000 ==> (((value as i64) << 50u32) >> 50u32) == (if value >= 0x2000 { value - 0x4000 } else { value as int })) by (bit_vector);
        } else if width == 19 {
            assert(value < 0x80000 ==> (((value as i64) << 45u32) >> 45u32) == (if value >= 0x40000 { value - 0x80000 } else { value as int })) by (bit_vector);
        } else {
            assert(value < 0x4000000 ==> (((value as i64) << 38u32) >> 38u32) == (if value >= 0x2000000 { value - 0x4000000 } else { value as int })) by (bit_vector);
        }
    }
    r
}

} // verus!
