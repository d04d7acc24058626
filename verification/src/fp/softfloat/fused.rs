//! Fused multiply-add.
//!
//! Separate from [`super::arithmetic`] because the whole point is that the
//! product is not rounded before the addition: the exact 2N-bit product is
//! aligned against the addend and rounded once, which is what makes `FMADD`
//! differ from `FMUL` followed by `FADD`.
use vstd::prelude::*;
use vstd::arithmetic::power2::{pow2, lemma2_to64, lemma_pow2_pos, lemma_pow2_adds, lemma_pow2_unfold, lemma_pow2_strictly_increases};
use super::arithmetic::{significand_scale, Context};
use super::decompose::{
    bit_length, implicit_bit, lemma_implicit_bit, power_of_two, raised, round_and_pack, rounded_and_packed, unpack,
    unpacked_of, RoundingContext, Unpacked, flushes, normalised, rescaled, exact_within, correctly_packed,
    lemma_round_and_pack_is_correctly_rounded, lemma_unpacked_shape,
};
use super::nan::{self, propagated};
use crate::fp::operand::{FpFormat, FpResult, FpRounding};

verus! {

/// The three operands and the sign controls that separate the four mnemonics.
#[derive(Debug, Clone, Copy, PartialEq, Eq, Structural)]
pub struct FusedOperands {
    /// First multiplicand.
    pub multiplicand: u64,
    /// Second multiplicand.
    pub multiplier: u64,
    /// Addend.
    pub addend: u64,
    /// Whether the product is negated before the addition.
    pub is_product_negated: bool,
    /// Whether the addend is negated before the addition.
    pub is_addend_negated: bool,
}

/// The exact product, held at twice an unpacked significand's scale: its
/// value is `significand * 2^(exponent - 2 * (mantissa_bits + GUARD_BITS))`.
#[derive(Debug, Clone, Copy, PartialEq, Eq, Structural)]
pub struct ExactProduct {
    /// Sign of the product, after any negation.
    pub is_negative: bool,
    /// Sum of the multiplicands' exponents.
    pub exponent: i32,
    /// Product of the multiplicands' significands.
    pub significand: u128,
}

/// The addend after `is_addend_negated` is applied.
pub open spec fn addend_signed(operands: FusedOperands, format: FpFormat) -> u64 {
    if operands.is_addend_negated { operands.addend ^ format.sign_weight() } else { operands.addend }
}

/// The addend after `is_addend_negated` is applied.
pub fn signed_addend(operands: &FusedOperands, format: FpFormat) -> (r: u64)
    ensures
        r == addend_signed(*operands, format),
{
    if operands.is_addend_negated {
        operands.addend ^ format.zero(true)
    } else {
        operands.addend
    }
}

/// Whether `bits` is an infinity of `format`.
pub open spec fn infinite(bits: u64, format: FpFormat) -> bool {
    format.exponent_field(bits) == format.max_exponent() && format.fraction_field(bits) == 0
}

/// Whether `bits` is a zero of `format`.
pub open spec fn zero_value(bits: u64, format: FpFormat) -> bool {
    bits == 0 || bits == format.sign_weight()
}

/// Whether `bits` has its sign bit set.
pub open spec fn negative(bits: u64, format: FpFormat) -> bool {
    (bits / format.sign_weight()) % 2 == 1
}

/// The sign of the product, after any negation.
pub open spec fn product_sign(operands: FusedOperands, format: FpFormat) -> bool {
    (negative(operands.multiplicand, format) != negative(operands.multiplier, format)) != operands.is_product_negated
}

/// The result when the product is zero: the addend, except that two zeroes
/// keep their sign only when they agree, and otherwise give a zero that is
/// negative only when rounding toward minus infinity.
pub open spec fn zero_product_result(addend: u64, is_product_negative: bool, context: Context) -> FpResult {
    let format = context.format;
    if !zero_value(addend, format) {
        FpResult { bits: addend, raised: raised(0) }
    } else {
        let is_negative = if negative(addend, format) == is_product_negative {
            is_product_negative
        } else {
            context.rounding == FpRounding::Minus
        };
        FpResult { bits: format.zero(is_negative), raised: raised(0) }
    }
}

/// The infinity and zero cases: zero times infinity is invalid whatever the
/// addend; an infinite product is invalid against the opposite infinity and
/// otherwise that infinity; an infinite addend is itself; a zero product
/// leaves the addend.
pub open spec fn special_result(operands: FusedOperands, context: Context) -> Option<FpResult> {
    let format = context.format;
    let (multiplicand, multiplier) = (operands.multiplicand, operands.multiplier);
    let addend = addend_signed(operands, format);
    let is_product_infinite = infinite(multiplicand, format) || infinite(multiplier, format);
    let is_product_invalid = (infinite(multiplicand, format) && zero_value(multiplier, format))
        || (zero_value(multiplicand, format) && infinite(multiplier, format));
    let is_product_negative = product_sign(operands, format);
    if is_product_invalid {
        Some(FpResult { bits: format.default_nan(), raised: nan::invalid_if(true) })
    } else if is_product_infinite {
        if infinite(addend, format) && negative(addend, format) != is_product_negative {
            Some(FpResult { bits: format.default_nan(), raised: nan::invalid_if(true) })
        } else {
            Some(FpResult { bits: format.signed_infinity(is_product_negative), raised: raised(0) })
        }
    } else if infinite(addend, format) {
        Some(FpResult { bits: addend, raised: raised(0) })
    } else if zero_value(multiplicand, format) || zero_value(multiplier, format) {
        Some(zero_product_result(addend, is_product_negative, context))
    } else {
        None
    }
}

/// The infinity and zero cases, which never reach the significand arithmetic.
pub fn special_cases(operands: &FusedOperands, context: Context) -> (r: Option<FpResult>)
    ensures
        r == special_result(*operands, context),
{
    let format = context.format;
    let (multiplicand, multiplier) = (operands.multiplicand, operands.multiplier);
    let addend = signed_addend(operands, format);

    let is_product_infinite = format.is_infinite(multiplicand) || format.is_infinite(multiplier);
    let is_product_invalid = (format.is_infinite(multiplicand) && format.is_zero(multiplier))
        || (format.is_zero(multiplicand) && format.is_infinite(multiplier));
    if is_product_invalid {
        return Some(nan::invalid_operation(format));
    }

    let mut is_product_negative = format.is_negative(multiplicand) != format.is_negative(multiplier);
    if operands.is_product_negated {
        is_product_negative = !is_product_negative;
    }

    if is_product_infinite {
        // An infinite product plus the opposite infinity has no value.
        if format.is_infinite(addend) && format.is_negative(addend) != is_product_negative {
            return Some(nan::invalid_operation(format));
        }
        return Some(FpResult::exact(format.signed_infinity(is_product_negative)));
    }
    if format.is_infinite(addend) {
        return Some(FpResult::exact(addend));
    }

    if format.is_zero(multiplicand) || format.is_zero(multiplier) {
        return Some(zero_product(addend, is_product_negative, context));
    }
    None
}

/// The result when the product is zero, which reduces to returning the addend
/// except that two zeroes must agree on a sign.
pub fn zero_product(addend: u64, is_product_negative: bool, context: Context) -> (r: FpResult)
    ensures
        r == zero_product_result(addend, is_product_negative, context),
{
    let format = context.format;
    if !format.is_zero(addend) {
        return FpResult::exact(addend);
    }

    let is_negative = if format.is_negative(addend) == is_product_negative {
        is_product_negative
    } else {
        match context.rounding {
            FpRounding::Minus => true,
            _ => false,
        }
    };
    FpResult::exact(format.zero(is_negative))
}

/// The exact product of the two multiplicands, unrounded.
pub open spec fn product_of(operands: FusedOperands, format: FpFormat) -> ExactProduct {
    let left = unpacked_of(operands.multiplicand, format);
    let right = unpacked_of(operands.multiplier, format);
    ExactProduct {
        is_negative: (left.is_negative != right.is_negative) != operands.is_product_negated,
        exponent: (left.exponent + right.exponent) as i32,
        significand: (left.significand * right.significand) as u128,
    }
}

/// The exact product of the two multiplicands, unrounded.
pub fn exact_product(operands: &FusedOperands, context: Context) -> (r: ExactProduct)
    ensures
        r == product_of(*operands, context.format),
        r.significand < 4 * implicit_bit(context.format) * implicit_bit(context.format),
        -2200 < r.exponent < 2200,
{
    let format = context.format;
    let left = unpack(operands.multiplicand, format);
    let right = unpack(operands.multiplier, format);

    let mut is_negative = left.is_negative != right.is_negative;
    if operands.is_product_negated {
        is_negative = !is_negative;
    }
    proof {
        lemma_implicit_bit(format);
        let t = implicit_bit(format) as int;
        assert(left.significand * right.significand < 4 * t * t) by (nonlinear_arith)
            requires left.significand < 2 * t, right.significand < 2 * t, t > 0;
        assert(4 * t * t <= 4 * 0x80_0000_0000_0000 * 0x80_0000_0000_0000) by (nonlinear_arith)
            requires 0 < t <= 0x80_0000_0000_0000;
    }

    ExactProduct {
        is_negative,
        exponent: left.exponent + right.exponent,
        significand: (left.significand as u128) * (right.significand as u128),
    }
}

/// `2^shift` as a 128-bit value.
pub fn wide_power_of_two(shift: u32) -> (r: u128)
    requires
        shift < 128,
    ensures
        r == pow2(shift as nat),
{
    if shift < 64 {
        power_of_two(shift) as u128
    } else {
        let low = power_of_two(shift - 64) as u128;
        proof {
            lemma_pow2_adds((shift - 64) as nat, 64);
            lemma2_to64();
            vstd::arithmetic::power2::lemma2_to64_rest();
            if shift - 64 < 63 {
                lemma_pow2_strictly_increases((shift - 64) as nat, 63);
            }
            assert(low * 0x1_0000_0000_0000_0000 <= 0x8000_0000_0000_0000 * 0x1_0000_0000_0000_0000) by (nonlinear_arith)
                requires low <= 0x8000_0000_0000_0000;
        }
        low * 0x1_0000_0000_0000_0000
    }
}

/// A wide value shifted right by `shift`, and whether a set bit fell off.
pub open spec fn wide_shifted_out(value: u128, shift: u32) -> (u128, bool) {
    if shift >= 128 {
        (0, value != 0)
    } else {
        ((value as nat / pow2(shift as nat)) as u128, value as nat % pow2(shift as nat) != 0)
    }
}

/// Shifts right, reporting whether a set bit was discarded.
pub fn shift_right_sticky(value: u128, shift: u32) -> (r: (u128, bool))
    ensures
        r == wide_shifted_out(value, shift),
{
    if shift >= 128 {
        return (0, value != 0);
    }
    let weight = wide_power_of_two(shift);
    proof { lemma_pow2_pos(shift as nat); }
    (value / weight, value % weight != 0)
}

/// Two wide significands brought onto the larger exponent: the one with the
/// smaller exponent shifted down by the difference, its discarded bits folded
/// into the sticky flag.
pub open spec fn aligned(product: u128, product_exponent: i32, addend: u128, addend_exponent: i32) -> (u128, u128, i32, bool) {
    if product_exponent >= addend_exponent {
        let (shifted, is_sticky) = wide_shifted_out(addend, (product_exponent - addend_exponent) as u32);
        (product, shifted, product_exponent, is_sticky)
    } else {
        let (shifted, is_sticky) = wide_shifted_out(product, (addend_exponent - product_exponent) as u32);
        (shifted, addend, addend_exponent, is_sticky)
    }
}

/// Brings two wide significands onto a common exponent, folding discarded bits
/// into a sticky flag.
pub fn align(product: u128, product_exponent: i32, addend: u128, addend_exponent: i32) -> (r: (u128, u128, i32, bool))
    requires
        -10000 < product_exponent < 10000,
        -10000 < addend_exponent < 10000,
    ensures
        r == aligned(product, product_exponent, addend, addend_exponent),
        r.0 <= product,
        r.1 <= addend,
{
    if product_exponent >= addend_exponent {
        let shift = (product_exponent - addend_exponent) as u32;
        let (shifted, is_sticky) = shift_right_sticky(addend, shift);
        proof { lemma_shifted_out_smaller(addend, shift); }
        (product, shifted, product_exponent, is_sticky)
    } else {
        let shift = (addend_exponent - product_exponent) as u32;
        let (shifted, is_sticky) = shift_right_sticky(product, shift);
        proof { lemma_shifted_out_smaller(product, shift); }
        (shifted, addend, addend_exponent, is_sticky)
    }
}

/// Shifting right never grows a value.
proof fn lemma_shifted_out_smaller(value: u128, shift: u32)
    ensures
        wide_shifted_out(value, shift).0 <= value,
{
    if shift < 128 {
        lemma_pow2_pos(shift as nat);
        vstd::arithmetic::div_mod::lemma_div_is_ordered_by_denominator(value as int, 1, pow2(shift as nat) as int);
    }
}

/// A positive value lies between the powers of two its bit length names.
pub proof fn lemma_bit_length_bounds(value: nat)
    requires
        value > 0,
    ensures
        pow2((bit_length(value) - 1) as nat) <= value < pow2(bit_length(value)),
    decreases value,
{
    lemma2_to64();
    if value == 1 {
        assert(bit_length(0) == 0);
        assert(bit_length(1) == 1);
    } else {
        lemma_bit_length_bounds(value / 2);
        let half = bit_length(value / 2);
        lemma_pow2_unfold(half);
        lemma_pow2_unfold(half + 1);
        if half >= 1 {
            lemma_pow2_unfold(half);
        }
    }
}

/// The number of bits a 128-bit value occupies.
pub fn wide_bit_length(value: u128) -> (r: u32)
    ensures
        r == bit_length(value as nat),
        r <= 128,
{
    let mut remaining = value;
    let mut length: u32 = 0;
    proof {
        lemma2_to64();
        lemma_pow2_adds(64, 64);
        lemma_bit_length_at_most(value as nat, 128);
    }
    while remaining != 0
        invariant
            length + bit_length(remaining as nat) == bit_length(value as nat),
            bit_length(value as nat) <= 128,
        decreases remaining,
    {
        remaining = remaining / 2;
        length = length + 1;
    }
    length
}

/// A value below `2^width` has at most `width` bits.
proof fn lemma_bit_length_at_most(value: nat, width: nat)
    requires
        value < pow2(width),
    ensures
        bit_length(value) <= width,
    decreases value,
{
    if value > 0 {
        lemma_bit_length_bounds(value);
        if bit_length(value) > width {
            if bit_length(value) - 1 > width {
                lemma_pow2_strictly_increases(width, (bit_length(value) - 1) as nat);
            }
        }
    }
}

/// What [`round_wide`] makes of a wide value: a zero of its sign if it is
/// zero, and otherwise the value moved so its leading bit sits at twice an
/// unpacked significand's scale (bits shifted out folded into the sticky
/// flag), narrowed by one scale (likewise), and rounded and packed.
pub open spec fn wide_rounded(value: ExactProduct, is_sticky: bool, context: Context) -> FpResult {
    let format = context.format;
    if value.significand == 0 {
        FpResult { bits: format.zero(value.is_negative), raised: raised(0) }
    } else {
        let (placed, sticky) = wide_placed(value, is_sticky, format);
        rounded_and_packed(placed, format, RoundingContext { rounding: context.rounding, is_sticky: sticky, control: context.control })
    }
}

/// A non-zero wide value moved so its leading bit sits at twice an unpacked
/// significand's scale (bits shifted out folded into the sticky flag) and
/// narrowed by one scale (likewise): the unpacked value [`wide_rounded`]
/// rounds and packs, with its sticky flag.
pub open spec fn wide_placed(value: ExactProduct, is_sticky: bool, format: FpFormat) -> (Unpacked, bool) {
    let (significand, exponent, sticky) = wide_moved(value, is_sticky, format);
    let (narrowed, discarded) = wide_shifted_out(significand, significand_scale(format));
    (Unpacked { is_negative: value.is_negative, exponent: exponent as i32, significand: narrowed as u64 }, sticky || discarded)
}

/// A non-zero wide value moved so its leading bit sits at twice an unpacked
/// significand's scale, with its exponent and sticky flag after the move.
pub open spec fn wide_moved(value: ExactProduct, is_sticky: bool, format: FpFormat) -> (u128, int, bool) {
    let target = 2 * significand_scale(format);
    let leading = bit_length(value.significand as nat) - 1;
    if leading > target {
        let (shifted, discarded) = wide_shifted_out(value.significand, (leading - target) as u32);
        (shifted, value.exponent + (leading - target), is_sticky || discarded)
    } else {
        ((value.significand * pow2((target - leading) as nat)) as u128, value.exponent - (target - leading), is_sticky)
    }
}

/// Narrows a wide significand back to 64 bits and rounds it.
///
/// The wide value carries its implicit bit at twice an unpacked significand's
/// scale. It is normalised *before* narrowing rather than after: a cancellation
/// can leave the leading bit far below that position, and shifting down by a
/// fixed amount first would discard the very bits the cancellation exposed.
pub fn round_wide(value: ExactProduct, is_sticky: bool, context: Context) -> (r: FpResult)
    requires
        -10000 < value.exponent < 10000,
    ensures
        r == wide_rounded(value, is_sticky, context),
{
    let format = context.format;
    if value.significand == 0 {
        return FpResult::exact(format.zero(value.is_negative));
    }

    // Place the leading bit at the wide scale's implicit position — twice an
    // unpacked significand's — so that narrowing by exactly one scale leaves
    // the value at the scale `round_and_pack` expects, with no exponent
    // correction beyond the normalisation itself.
    let scale = significand_scale(format);
    let target = 2 * scale;
    let length = wide_bit_length(value.significand);
    proof { lemma_bit_length_bounds(value.significand as nat); }
    let leading = length - 1;
    let mut exponent = value.exponent;
    let mut significand = value.significand;
    let mut is_sticky = is_sticky;

    if leading > target {
        let shift = leading - target;
        let (shifted, discarded) = shift_right_sticky(significand, shift);
        significand = shifted;
        is_sticky = is_sticky || discarded;
        exponent = exponent + shift as i32;
    } else {
        let shift = target - leading;
        let weight = wide_power_of_two(shift);
        proof {
            lemma2_to64();
            vstd::arithmetic::power2::lemma2_to64_rest();
            lemma_pow2_pos(shift as nat);
            lemma_pow2_unfold(leading as nat + 1);
            lemma_pow2_adds(leading as nat, shift as nat);
            assert(target <= 110);
            if target < 110 {
                lemma_pow2_strictly_increases(target as nat, 110);
            }
            lemma_pow2_adds(46, 64);
            let top = pow2(leading as nat);
            assert(significand < 2 * top);
            assert(significand * weight < 2 * top * weight) by (nonlinear_arith)
                requires significand < 2 * top, weight > 0;
            assert(top * weight == pow2(target as nat));
            assert(2 * top * weight <= 2 * pow2(110)) by (nonlinear_arith)
                requires top * weight == pow2(target as nat), pow2(target as nat) <= pow2(110);
        }
        significand = significand * weight;
        exponent = exponent - shift as i32;
    }

    let (narrowed, discarded) = shift_right_sticky(significand, scale);
    round_and_pack(
        Unpacked {
            is_negative: value.is_negative,
            exponent,
            significand: narrowed as u64,
        },
        format,
        RoundingContext {
            rounding: context.rounding,
            is_sticky: is_sticky || discarded,
            control: context.control,
        },
    )
}

/// Where a significand and its sticky flag stand for `n / d`, the
/// significand divided by `w`, sticky when anything was left over, stands for
/// the same value in units `w` times as large.
proof fn lemma_exact_within_divided(significand: int, is_sticky: bool, n: int, d: int, w: int)
    requires
        exact_within(significand, is_sticky, n, d),
        significand >= 0,
        w > 0,
    ensures
        exact_within(significand / w, is_sticky || significand % w != 0, n, d * w),
{
    vstd::arithmetic::div_mod::lemma_fundamental_div_mod(significand, w);
    let q = significand / w;
    let r = significand % w;
    assert(exact_within(q, is_sticky || r != 0, n, d * w)) by (nonlinear_arith)
        requires
            significand == w * q + r,
            0 <= r < w,
            d > 0,
            significand * d <= n < (significand + 1) * d,
            (n == significand * d) == !is_sticky;
}

/// An exact significand raised by `w` stands for the same value `w` times over.
proof fn lemma_exact_within_raised(significand: int, is_sticky: bool, n: int, d: int, w: int)
    requires
        exact_within(significand, is_sticky, n, d),
        w > 0,
        !is_sticky || w == 1,
    ensures
        exact_within(significand * w, is_sticky, n * w, d),
{
    if w == 1 {
        assert(significand * w == significand && n * w == n);
    } else {
        assert(exact_within(significand * w, is_sticky, n * w, d)) by (nonlinear_arith)
            requires n == significand * d, d > 0, w > 0, !is_sticky;
    }
}

/// The units in which [`wide_placed`] leaves a wide value: what `n / d` in the
/// wide value's units becomes once moved and narrowed as it is.
pub open spec fn wide_units(n: int, d: int, value: ExactProduct, format: FpFormat) -> (int, int) {
    let scale = significand_scale(format) as nat;
    let leading = bit_length(value.significand as nat) - 1;
    if leading > 2 * scale {
        (n, d * pow2((leading - 2 * scale + scale) as nat))
    } else {
        (n * pow2((2 * scale - leading) as nat), d * pow2(scale))
    }
}

/// Rounding a wide value is correct rounding: with flush-to-zero off and any
/// mode but round-to-odd, for a non-zero wide significand and sticky flag
/// that stand for the exact value `n / d` (in units of the significand),
/// where the sticky flag is only set on a significand that reaches twice the
/// unpacked scale, the unpacked value placed for rounding stands for the same
/// value in its own units, and the result is that value correctly rounded in
/// the format, range by range as `correctly_packed` says once normalised.
pub proof fn lemma_wide_rounding_is_correct(value: ExactProduct, is_sticky: bool, context: Context, n: int, d: int)
    requires
        !flushes(context.format, context.control),
        context.rounding != FpRounding::Odd,
        value.significand != 0,
        -10000 < value.exponent < 10000,
        exact_within(value.significand as int, is_sticky, n, d),
        is_sticky ==> bit_length(value.significand as nat) - 1 >= 2 * significand_scale(context.format),
    ensures
        ({
            let format = context.format;
            let (placed, sticky) = wide_placed(value, is_sticky, format);
            let (n2, d2) = wide_units(n, d, value, format);
            let (normal, normal_sticky) = normalised(placed, sticky, format);
            let (n3, d3) = rescaled(n2, d2, placed, normal);
            &&& exact_within(placed.significand as int, sticky, n2, d2)
            &&& correctly_packed(normal, normal_sticky, format, context.rounding, wide_rounded(value, is_sticky, context), n3, d3)
        }),
{
    let format = context.format;
    lemma_implicit_bit(format);
    let scale = significand_scale(format) as nat;
    lemma_wide_move_is_exact(value, is_sticky, format, n, d);
    let (significand, exponent, sticky) = wide_moved(value, is_sticky, format);
    let leading = bit_length(value.significand as nat) - 1;
    let (n1, d1) = if leading > 2 * scale {
        (n, d * pow2((leading - 2 * scale) as nat))
    } else {
        (n * pow2((2 * scale - leading) as nat), d)
    };
    lemma_wide_narrowing_is_exact(significand, sticky, format, n1, d1);
    if leading > 2 * scale {
        lemma_pow2_adds((leading - 2 * scale) as nat, scale);
        assert(d1 * pow2(scale) == d * pow2((leading - 2 * scale + scale) as nat)) by (nonlinear_arith)
            requires d1 == d * pow2((leading - 2 * scale) as nat),
                pow2((leading - 2 * scale) as nat) * pow2(scale) == pow2((leading - 2 * scale + scale) as nat);
    }
    let (placed, placed_sticky) = wide_placed(value, is_sticky, format);
    lemma_round_and_pack_is_correctly_rounded(placed, placed_sticky, format, context.control, context.rounding,
        wide_units(n, d, value, format).0, wide_units(n, d, value, format).1);
}

/// Moving a wide value's leading bit to twice the unpacked scale keeps it
/// exact up to its sticky flag, in units moved with it.
proof fn lemma_wide_move_is_exact(value: ExactProduct, is_sticky: bool, format: FpFormat, n: int, d: int)
    requires
        value.significand != 0,
        exact_within(value.significand as int, is_sticky, n, d),
        is_sticky ==> bit_length(value.significand as nat) - 1 >= 2 * significand_scale(format),
    ensures
        ({
            let scale = significand_scale(format) as nat;
            let (significand, exponent, sticky) = wide_moved(value, is_sticky, format);
            let leading = bit_length(value.significand as nat) - 1;
            let (n1, d1) = if leading > 2 * scale {
                (n, d * pow2((leading - 2 * scale) as nat))
            } else {
                (n * pow2((2 * scale - leading) as nat), d)
            };
            &&& pow2(2 * scale) <= significand < pow2(2 * scale + 1)
            &&& exact_within(significand as int, sticky, n1, d1)
            &&& value.exponent - 2 * scale <= exponent <= value.exponent + 128
        }),
{
    lemma_implicit_bit(format);
    lemma2_to64();
    vstd::arithmetic::power2::lemma2_to64_rest();
    let scale = significand_scale(format) as nat;
    let target = 2 * scale;
    let big = value.significand as int;
    lemma_bit_length_bounds(value.significand as nat);
    let leading = (bit_length(value.significand as nat) - 1) as nat;
    lemma_pow2_unfold(leading + 1);
    assert(leading < 128) by {
        if leading >= 128 {
            lemma_pow2_adds(64, 64);
            assert(pow2(128) == 0x1_0000_0000_0000_0000_0000_0000_0000_0000) by (nonlinear_arith)
                requires pow2(128) == pow2(64) * pow2(64), pow2(64) == 0x1_0000_0000_0000_0000;
            if leading > 128 {
                lemma_pow2_strictly_increases(128, leading);
            }
        }
    }
    assert(scale <= 55 && scale >= 13);
    lemma_pow2_unfold(target + 1);
    let (significand, exponent, sticky) = wide_moved(value, is_sticky, format);
    if leading > target {
        let k = (leading - target) as nat;
        let w = pow2(k) as int;
        lemma_pow2_pos(k);
        assert(((leading - target) as u32) as nat == k);
        lemma_exact_within_divided(big, is_sticky, n, d, w);
        lemma_pow2_adds(target, k);
        lemma_pow2_adds(target + 1, k);
        let low = pow2(target) as int;
        assert(low * w == pow2(leading));
        assert(2 * low * w == 2 * pow2(leading)) by (nonlinear_arith)
            requires low * w == pow2(leading);
        vstd::arithmetic::div_mod::lemma_fundamental_div_mod(big, w);
        let q = big / w;
        assert(low <= q < 2 * low) by (nonlinear_arith)
            requires big == w * q + big % w, 0 <= big % w < w, low * w <= big, big < 2 * low * w, w > 0;
        assert(significand == q);
        assert(sticky == (is_sticky || big % w != 0));
        assert(exponent == value.exponent + k);
        assert(exact_within(significand as int, sticky, n, d * pow2(k)));
    } else {
        let k = (target - leading) as nat;
        let w = pow2(k) as int;
        lemma_pow2_pos(k);
        lemma_pow2_adds(leading, k);
        if k == 0 {
            assert(pow2(0) == 1);
        }
        lemma_exact_within_raised(big, is_sticky, n, d, w);
        let low = pow2(leading) as int;
        assert(low * w == pow2(target));
        assert(low * w <= big * w < 2 * low * w) by (nonlinear_arith)
            requires low <= big < 2 * low, w > 0;
        assert(target + 1 <= 111);
        if target + 1 < 127 {
            lemma_pow2_strictly_increases(target + 1, 127);
        }
        lemma_pow2_adds(64, 63);
        assert(pow2(127) == 0x8000_0000_0000_0000_0000_0000_0000_0000) by (nonlinear_arith)
            requires pow2(127) == pow2(64) * pow2(63), pow2(64) == 0x1_0000_0000_0000_0000, pow2(63) == 0x8000_0000_0000_0000;
        assert(pow2(target + 1) == 2 * pow2(target));
        assert(2 * low * w == pow2(target + 1)) by (nonlinear_arith)
            requires low * w == pow2(target), pow2(target + 1) == 2 * pow2(target);
        assert(big * w < 0x1_0000_0000_0000_0000_0000_0000_0000_0000);
        assert(significand == big * w);
        assert(sticky == is_sticky);
        assert(exponent == value.exponent - k);
        assert(exact_within(significand as int, sticky, n * w, d));
    }
}

/// Narrowing a moved wide significand by one scale keeps it exact up to its
/// sticky flag and leaves the implicit bit on top.
proof fn lemma_wide_narrowing_is_exact(significand: u128, is_sticky: bool, format: FpFormat, n: int, d: int)
    requires
        pow2(2 * significand_scale(format) as nat) <= significand < pow2(2 * significand_scale(format) as nat + 1),
        exact_within(significand as int, is_sticky, n, d),
    ensures
        ({
            let scale = significand_scale(format);
            let (narrowed, discarded) = wide_shifted_out(significand, scale);
            &&& implicit_bit(format) <= narrowed < 2 * implicit_bit(format)
            &&& exact_within(narrowed as int, is_sticky || discarded, n, d * pow2(scale as nat))
        }),
{
    lemma_implicit_bit(format);
    lemma2_to64();
    let scale = significand_scale(format) as nat;
    assert(scale <= 55 && scale >= 13);
    lemma_pow2_pos(scale);
    let w = pow2(scale) as int;
    lemma_exact_within_divided(significand as int, is_sticky, n, d, w);
    lemma_pow2_adds(scale, scale);
    lemma_pow2_unfold(2 * scale + 1);
    vstd::arithmetic::div_mod::lemma_fundamental_div_mod(significand as int, w);
    let q = (significand as int) / w;
    assert(w <= q < 2 * w) by (nonlinear_arith)
        requires significand == w * q + (significand as int) % w, 0 <= (significand as int) % w < w,
            w * w <= significand, significand < 2 * (w * w), w > 0;
    assert(implicit_bit(format) == w);
}

/// What [`accumulate`] makes of the exact product and the signed addend: the
/// product alone if the addend is a zero; otherwise the addend raised to the
/// product's scale, both aligned to the larger exponent, added or subtracted
/// by sign (the larger magnitude giving the sign), and rounded once. An exact
/// cancellation gives a zero that is negative only when rounding toward minus
/// infinity.
pub open spec fn accumulated(product: ExactProduct, addend: u64, context: Context) -> FpResult {
    let format = context.format;
    if zero_value(addend, format) {
        wide_rounded(product, false, context)
    } else {
        let (summed, is_sticky) = wide_sum(product, unpacked_of(addend, format), format);
        if summed.significand == 0 && !is_sticky {
            FpResult { bits: format.zero(context.rounding == FpRounding::Minus), raised: raised(0) }
        } else {
            wide_rounded(summed, is_sticky && summed.significand != 0, context)
        }
    }
}

/// The exact product and a non-zero unpacked addend, the addend raised to
/// the product's scale, both aligned to the larger exponent and added or
/// subtracted by sign (the larger magnitude giving the sign); with whether
/// aligning discarded any bits.
pub open spec fn wide_sum(product: ExactProduct, addend: Unpacked, format: FpFormat) -> (ExactProduct, bool) {
    let addend_significand = (addend.significand * pow2(significand_scale(format) as nat)) as u128;
    let (aligned_product, aligned_addend, exponent, is_sticky) =
        aligned(product.significand, product.exponent, addend_significand, addend.exponent);
    let (significand, is_negative) = if product.is_negative == addend.is_negative {
        ((aligned_product + aligned_addend) as u128, product.is_negative)
    } else if aligned_product >= aligned_addend {
        ((aligned_product - aligned_addend) as u128, product.is_negative)
    } else {
        ((aligned_addend - aligned_product) as u128, addend.is_negative)
    };
    (ExactProduct { is_negative, exponent, significand }, is_sticky)
}

/// Adds the addend to the exact product and rounds once.
pub fn accumulate(product: ExactProduct, addend: u64, context: Context) -> (r: FpResult)
    requires
        product.significand < 4 * implicit_bit(context.format) * implicit_bit(context.format),
        -2200 < product.exponent < 2200,
    ensures
        r == accumulated(product, addend, context),
{
    let format = context.format;
    let scale = significand_scale(format);

    if format.is_zero(addend) {
        return round_wide(product, false, context);
    }

    let unpacked = unpack(addend, format);
    // Raise the addend to the product's scale so both are exact integers on
    // one axis; the product is already there by construction.
    let weight = power_of_two(scale) as u128;
    proof {
        lemma_implicit_bit(format);
        assert(unpacked.significand * weight <= 0x100_0000_0000_0000 * 0x80_0000_0000_0000) by (nonlinear_arith)
            requires unpacked.significand <= 0x100_0000_0000_0000, weight <= 0x80_0000_0000_0000;
        let t = implicit_bit(format) as int;
        assert(4 * t * t <= 4 * 0x80_0000_0000_0000 * 0x80_0000_0000_0000) by (nonlinear_arith)
            requires 0 < t <= 0x80_0000_0000_0000;
    }
    let addend_significand = (unpacked.significand as u128) * weight;
    let addend_exponent = unpacked.exponent;

    let (aligned_product, aligned_addend, exponent, is_sticky) = align(
        product.significand,
        product.exponent,
        addend_significand,
        addend_exponent,
    );

    let (significand, is_negative) = if product.is_negative == unpacked.is_negative {
        (aligned_product + aligned_addend, product.is_negative)
    } else if aligned_product >= aligned_addend {
        (aligned_product - aligned_addend, product.is_negative)
    } else {
        (aligned_addend - aligned_product, unpacked.is_negative)
    };

    if significand == 0 && !is_sticky {
        let is_negative = match context.rounding {
            FpRounding::Minus => true,
            _ => false,
        };
        return FpResult::exact(format.zero(is_negative));
    }
    // A cancellation that borrowed leaves the sticky bit meaningful only if
    // something survived above it.
    let is_sticky = is_sticky && significand != 0;

    round_wide(
        ExactProduct {
            is_negative,
            exponent,
            significand,
        },
        is_sticky,
        context,
    )
}

/// What [`multiply_add`] returns: NaN propagation over the three operands in
/// order, then the special cases, then the exact product accumulated with the
/// signed addend and rounded once.
pub open spec fn fused_result(operands: FusedOperands, context: Context) -> FpResult {
    let format = context.format;
    let inputs = seq![operands.multiplicand, operands.multiplier, operands.addend];
    if propagated(inputs, format, context.control) is Some {
        propagated(inputs, format, context.control)->0
    } else if special_result(operands, context) is Some {
        special_result(operands, context)->0
    } else {
        accumulated(product_of(operands, format), addend_signed(operands, format), context)
    }
}

/// `addend + multiplicand * multiplier`, with a single rounding.
pub fn multiply_add(operands: FusedOperands, context: Context) -> (r: FpResult)
    ensures
        r == fused_result(operands, context),
{
    let format = context.format;
    let inputs = [operands.multiplicand, operands.multiplier, operands.addend];
    assert(inputs@ =~= seq![operands.multiplicand, operands.multiplier, operands.addend]);
    match nan::propagate(&inputs, format, context.control) {
        Some(result) => return result,
        None => {},
    }
    match special_cases(&operands, context) {
        Some(result) => return result,
        None => {},
    }

    let product = exact_product(&operands, context);
    let addend = signed_addend(&operands, format);
    accumulate(product, addend, context)
}

/// A NaN in any of the three operands propagates: the fused result is the
/// first NaN in operand order, quietened (or the default NaN under
/// `FPCR.DN`), and invalid is raised exactly when some operand is a
/// signalling NaN, whatever the other operands are.
pub proof fn lemma_fused_nan_propagates(operands: FusedOperands, context: Context)
    requires
        nan::has_nan(seq![operands.multiplicand, operands.multiplier, operands.addend], context.format),
    ensures
        ({
            let inputs = seq![operands.multiplicand, operands.multiplier, operands.addend];
            &&& fused_result(operands, context).bits
                == nan::nan_result(inputs[nan::first_nan(inputs, context.format)], context.format, context.control)
            &&& fused_result(operands, context).raised == nan::invalid_if(nan::has_signalling(inputs, context.format))
        }),
{
}

/// The exact sum of the product and the addend, in units of two to the
/// smaller of their exponents less twice the unpacked scale: each
/// significand (the addend's raised to the product's scale) raised by its
/// exponent's excess over that unit, negated when negative.
pub open spec fn wide_exact(product: ExactProduct, addend: Unpacked, format: FpFormat) -> int {
    let unit: int = if product.exponent <= addend.exponent { product.exponent as int } else { addend.exponent as int };
    let p = product.significand * pow2((product.exponent - unit) as nat);
    let a = addend.significand * pow2(significand_scale(format) as nat) * pow2((addend.exponent - unit) as nat);
    (if product.is_negative { -p } else { p }) + (if addend.is_negative { -a } else { a })
}

/// Adding a larger significand and a smaller one shifted down by `w`, or
/// taking the lesser from the greater, is exact up to the sticky flag of the
/// shift, in units `w` times the smaller one's: for a sum always, and for a
/// difference when the shift discarded nothing; the difference keeps the
/// sign of the larger side.
proof fn lemma_aligned_wide_exact(big: int, small: int, w: int, is_same: bool)
    requires
        big > 0,
        small > 0,
        w > 0,
        is_same || small % w == 0,
        is_same || big * w != small,
    ensures
        ({
            let shifted = small / w;
            let is_sticky = small % w != 0;
            let significand = if is_same { big + shifted } else if big >= shifted { big - shifted } else { shifted - big };
            let magnitude = if is_same { big * w + small } else if big * w >= small { big * w - small } else { small - big * w };
            &&& exact_within(significand, is_sticky, magnitude, w)
            &&& significand > 0
            &&& !is_same ==> ((big >= shifted) == (big * w > small))
        }),
{
    vstd::arithmetic::div_mod::lemma_fundamental_div_mod(small, w);
    let shifted = small / w;
    let rem = small % w;
    if is_same {
        assert(big * w + small == (big + shifted) * w + rem) by (nonlinear_arith)
            requires small == w * shifted + rem;
        assert(exact_within(big + shifted, rem != 0, big * w + small, w)) by (nonlinear_arith)
            requires big * w + small == (big + shifted) * w + rem, 0 <= rem < w, w > 0;
        assert(shifted >= 0) by (nonlinear_arith)
            requires small == w * shifted + rem, rem < w, small > 0, w > 0;
    } else {
        assert(rem == 0);
        if big >= shifted {
            assert(big * w - small == (big - shifted) * w) by (nonlinear_arith)
                requires small == w * shifted;
            assert(big != shifted) by (nonlinear_arith)
                requires small == w * shifted, big * w != small;
            assert(big * w > small) by (nonlinear_arith)
                requires small == w * shifted, big > shifted, w > 0;
            assert(exact_within(big - shifted, false, big * w - small, w)) by (nonlinear_arith)
                requires big * w - small == (big - shifted) * w, w > 0;
        } else {
            assert(small - big * w == (shifted - big) * w) by (nonlinear_arith)
                requires small == w * shifted;
            assert(big * w < small) by (nonlinear_arith)
                requires small == w * shifted, big < shifted, w > 0;
            assert(exact_within(shifted - big, false, small - big * w, w)) by (nonlinear_arith)
                requires small - big * w == (shifted - big) * w, w > 0;
        }
    }
}

/// The fused multiply-add is correctly rounded: with flush-to-zero off and
/// any mode but round-to-odd, for three finite non-zero operands, none a
/// NaN, whose exact result `addend + product` is not zero, and where the
/// product and addend have the same sign or aligning them discarded nothing,
/// the result is the exact result correctly rounded once in the format. The
/// wide sum stands for the exact magnitude, in units of its exponent, up to
/// its sticky flag and has the exact result's sign; once moved, narrowed and
/// normalised, `correctly_packed` says what rounding gives in each range.
pub proof fn lemma_fused_is_correctly_rounded(operands: FusedOperands, context: Context)
    requires
        !flushes(context.format, context.control),
        context.rounding != FpRounding::Odd,
        propagated(seq![operands.multiplicand, operands.multiplier, operands.addend], context.format, context.control) is None,
        special_result(operands, context) is None,
        !zero_value(addend_signed(operands, context.format), context.format),
        unpacked_of(operands.multiplicand, context.format).significand != 0,
        unpacked_of(operands.multiplier, context.format).significand != 0,
        unpacked_of(addend_signed(operands, context.format), context.format).significand != 0,
        wide_exact(product_of(operands, context.format), unpacked_of(addend_signed(operands, context.format), context.format), context.format) != 0,
        ({
            let format = context.format;
            let product = product_of(operands, format);
            let addend = unpacked_of(addend_signed(operands, format), format);
            product.is_negative == addend.is_negative || !wide_sum(product, addend, format).1
        }),
    ensures
        ({
            let format = context.format;
            let product = product_of(operands, format);
            let addend = unpacked_of(addend_signed(operands, format), format);
            let exact = wide_exact(product, addend, format);
            let unit: int = if product.exponent <= addend.exponent { product.exponent as int } else { addend.exponent as int };
            let magnitude = if exact < 0 { -exact } else { exact };
            let (summed, is_sticky) = wide_sum(product, addend, format);
            let step = pow2((summed.exponent - unit) as nat) as int;
            let (placed, placed_sticky) = wide_placed(summed, is_sticky, format);
            let (n, d) = wide_units(magnitude, step, summed, format);
            let (normal, normal_sticky) = normalised(placed, placed_sticky, format);
            let (n2, d2) = rescaled(n, d, placed, normal);
            &&& summed.is_negative == (exact < 0)
            &&& exact_within(summed.significand as int, is_sticky, magnitude, step)
            &&& exact_within(placed.significand as int, placed_sticky, n, d)
            &&& correctly_packed(normal, normal_sticky, format, context.rounding, fused_result(operands, context), n2, d2)
        }),
{
    let format = context.format;
    lemma_implicit_bit(format);
    lemma2_to64();
    vstd::arithmetic::power2::lemma2_to64_rest();
    let left = unpacked_of(operands.multiplicand, format);
    let right = unpacked_of(operands.multiplier, format);
    lemma_unpacked_shape(operands.multiplicand, format);
    lemma_unpacked_shape(operands.multiplier, format);
    lemma_unpacked_shape(addend_signed(operands, format), format);
    let product = product_of(operands, format);
    let addend = unpacked_of(addend_signed(operands, format), format);
    let t = implicit_bit(format) as int;
    let scale = significand_scale(format) as nat;
    assert(t == pow2(scale));
    let p = left.significand * right.significand;
    assert(t * t <= p < 4 * t * t) by (nonlinear_arith)
        requires t <= left.significand < 2 * t, t <= right.significand < 2 * t, p == left.significand * right.significand;
    assert(4 * t * t <= 4 * (0x80_0000_0000_0000 * 0x80_0000_0000_0000)) by (nonlinear_arith)
        requires 0 < t <= 0x80_0000_0000_0000;
    assert(product.significand == p);
    let a = addend.significand * t;
    assert(t * t <= a < 2 * t * t) by (nonlinear_arith)
        requires t <= addend.significand < 2 * t, a == addend.significand * t;
    let addend_significand = (addend.significand * pow2(scale)) as u128;
    assert(2 * t * t <= 2 * (0x80_0000_0000_0000 * 0x80_0000_0000_0000)) by (nonlinear_arith)
        requires 0 < t <= 0x80_0000_0000_0000;
    assert(addend.significand * pow2(scale) == a);
    assert(addend_significand == a);
    lemma_pow2_adds(scale, scale);
    assert(t * t == pow2(2 * scale));
    let (summed, is_sticky) = wide_sum(product, addend, format);
    let unit: int = if product.exponent <= addend.exponent { product.exponent as int } else { addend.exponent as int };
    let is_same = product.is_negative == addend.is_negative;
    // The side with the larger exponent is raised by the difference; the
    // other is the one shifted down.
    let k = (if product.exponent >= addend.exponent { product.exponent - addend.exponent } else { addend.exponent - product.exponent }) as nat;
    lemma_pow2_pos(k);
    let w = pow2(k) as int;
    let (big, small) = if product.exponent >= addend.exponent { (p, a) } else { (a, p) };
    assert(small < 0x1_0000_0000_0000_0000_0000_0000_0000_0000);
    assert(k < 128 || small < w) by {
        if k >= 128 {
            lemma_pow2_adds(64, 64);
            assert(pow2(128) == 0x1_0000_0000_0000_0000_0000_0000_0000_0000) by (nonlinear_arith)
                requires pow2(128) == pow2(64) * pow2(64), pow2(64) == 0x1_0000_0000_0000_0000;
            if k > 128 {
                lemma_pow2_strictly_increases(128, k);
            }
        }
    }
    if k >= 128 {
        vstd::arithmetic::div_mod::lemma_small_mod(small as nat, w as nat);
        vstd::arithmetic::div_mod::lemma_basic_div(small, w);
    }
    assert(((if product.exponent >= addend.exponent { product.exponent - addend.exponent } else { addend.exponent - product.exponent }) as u32) as nat == k);
    let exact = wide_exact(product, addend, format);
    assert(pow2(0) == 1);
    // Each side in units of the smaller exponent: the larger-exponent side
    // raised by the difference, the other as it is.
    let p_units = product.significand * pow2((product.exponent - unit) as nat);
    let a_units = a * pow2((addend.exponent - unit) as nat);
    assert(a * 1 == a && p * 1 == p);
    if product.exponent >= addend.exponent {
        assert((product.exponent - unit) as nat == k && (addend.exponent - unit) as nat == 0);
        assert(big == p && small == a);
        assert(p_units == p * w);
        assert(a_units == a * pow2(0));
        assert(p_units == big * w && a_units == small);
    } else {
        assert((addend.exponent - unit) as nat == k && (product.exponent - unit) as nat == 0);
        assert(big == a && small == p);
        assert(a_units == a * w);
        assert(p_units == p * pow2(0));
        assert(p_units == small && a_units == big * w);
    }
    assert(addend.significand * pow2(scale) * pow2((addend.exponent - unit) as nat) == a_units);
    assert(exact == (if product.is_negative { -p_units } else { p_units }) + (if addend.is_negative { -a_units } else { a_units }));
    if !is_same {
        assert(small % w == 0);
        assert(big * w != small);
    }
    lemma_aligned_wide_exact(big, small, w, is_same);
    assert(big * w > 0) by (nonlinear_arith)
        requires big > 0, w > 0;
    let magnitude = if exact < 0 { -exact } else { exact };
    let step = pow2((summed.exponent - unit) as nat) as int;
    assert(summed.exponent == unit + k);
    assert(step == w);
    let (aligned_product, aligned_addend, aligned_exponent, aligned_sticky) =
        aligned(product.significand, product.exponent, addend_significand, addend.exponent);
    assert(small / w <= small) by {
        vstd::arithmetic::div_mod::lemma_div_is_ordered_by_denominator(small, 1, w);
    }
    if product.exponent >= addend.exponent {
        assert(aligned_product == big && aligned_addend == small / w && aligned_sticky == (small % w != 0));
    } else {
        assert(aligned_addend == big && aligned_product == small / w && aligned_sticky == (small % w != 0));
    }
    assert(big + small / w < 0x1_0000_0000_0000_0000_0000_0000_0000_0000);
    assert(summed.significand as int == (if is_same { big + small / w } else if big >= small / w { big - small / w } else { small / w - big }));
    assert(is_sticky == (small % w != 0));
    assert(magnitude == (if is_same { big * w + small } else if big * w >= small { big * w - small } else { small - big * w }));
    assert(summed.is_negative == (exact < 0));
    // A sticky sum has the same sign on both sides, so it reaches at least
    // the larger side, twice the unpacked scale.
    if is_sticky {
        assert(summed.significand >= pow2(2 * scale));
        lemma_bit_length_bounds(summed.significand as nat);
        let length = bit_length(summed.significand as nat);
        if length < 2 * scale + 1 {
            if length < 2 * scale {
                lemma_pow2_strictly_increases(length, 2 * scale);
            }
        }
    }
    lemma_wide_rounding_is_correct(summed, is_sticky, context, magnitude, step);
    assert(!zero_value(addend_signed(operands, format), format));
    assert(fused_result(operands, context) == accumulated(product, addend_signed(operands, format), context));

}

} // verus!
