//! Conversions: FP to integer, integer to FP, between FP formats, and
//! round-to-integral.
//!
//! An out-of-range FP-to-integer conversion saturates and raises invalid
//! rather than wrapping, which is the rule that separates this from a cast.
use vstd::prelude::*;
use vstd::arithmetic::power2::{pow2, lemma2_to64, lemma_pow2_pos, lemma_pow2_adds, lemma_pow2_unfold, lemma_pow2_strictly_increases};
use super::decompose::{
    bit_length, implicit_bit, lemma_implicit_bit, power_of_two, raised, round_and_pack, rounded_and_packed, unpack,
    unpacked_of, RoundingContext, Unpacked, flushes, normalised, exact_near, exact_within, normal_width,
    correctly_packed, lemma_round_and_pack_is_correctly_rounded, lemma_unpacked_shape,
};
use super::fused::{lemma_bit_length_bounds, wide_power_of_two};
use super::nan::{self, propagated};
use crate::fp::backend::IntFormat;
use crate::fp::control::{FpControl, FpExceptions, FPSR_IOC, FPSR_IXC};
use crate::fp::operand::{FpFormat, FpResult, FpRounding};

verus! {

/// The unpacked scale of `format`: `mantissa_bits + GUARD_BITS`.
pub open spec fn unpacked_scale(format: FpFormat) -> nat {
    (format.mantissa_bits() + 3) as nat
}

/// A significand moved from `source`'s scale to `target`'s: widening is exact;
/// narrowing shifts right and reports whether a set bit was lost.
pub open spec fn rescaled(significand: u64, source: FpFormat, target: FpFormat) -> (u64, bool) {
    let source_scale = unpacked_scale(source);
    let target_scale = unpacked_scale(target);
    if target_scale >= source_scale {
        ((significand * pow2((target_scale - source_scale) as nat)) as u64, false)
    } else {
        let shift = (source_scale - target_scale) as nat;
        ((significand as nat / pow2(shift)) as u64, significand as nat % pow2(shift) != 0)
    }
}

/// Moves a significand between two formats' scales, reporting lost bits.
pub fn rescale(significand: u64, source: FpFormat, target: FpFormat) -> (r: (u64, bool))
    requires
        significand < 2 * implicit_bit(source),
    ensures
        r == rescaled(significand, source, target),
        r.0 < 2 * implicit_bit(target),
{
    proof {
        lemma_implicit_bit(source);
        lemma_implicit_bit(target);
    }
    let source_scale = source.mantissa_bits() + 3;
    let target_scale = target.mantissa_bits() + 3;

    if target_scale >= source_scale {
        let weight = power_of_two(target_scale - source_scale);
        proof {
            lemma_pow2_pos((target_scale - source_scale) as nat);
            lemma_pow2_adds(source_scale as nat, (target_scale - source_scale) as nat);
            assert(source_scale as nat + (target_scale - source_scale) as nat == target_scale as nat);
            assert(implicit_bit(source) * weight == implicit_bit(target));
            assert(significand * weight < 2 * implicit_bit(source) * weight) by (nonlinear_arith)
                requires significand < 2 * implicit_bit(source), weight > 0;
            assert(2 * implicit_bit(source) * weight == 2 * implicit_bit(target)) by (nonlinear_arith)
                requires implicit_bit(source) * weight == implicit_bit(target);
        }
        return (significand * weight, false);
    }
    let shift = source_scale - target_scale;
    let weight = power_of_two(shift);
    proof {
        lemma_pow2_pos(shift as nat);
        lemma_pow2_adds(target_scale as nat, shift as nat);
        assert((significand as int) / (weight as int) < 2 * implicit_bit(target)) by {
            vstd::arithmetic::div_mod::lemma_div_is_ordered(significand as int, 2 * implicit_bit(source) - 1, weight as int);
            vstd::arithmetic::div_mod::lemma_div_multiples_vanish(2 * implicit_bit(target) as int, weight as int);
            vstd::arithmetic::div_mod::lemma_div_is_ordered(2 * implicit_bit(source) - 1, 2 * implicit_bit(source), weight as int);
            assert(2 * implicit_bit(source) == weight * (2 * implicit_bit(target))) by (nonlinear_arith)
                requires implicit_bit(source) == implicit_bit(target) * weight;
            if (significand as int) / (weight as int) >= 2 * implicit_bit(target) {
                assert((significand as int) >= (weight as int) * (2 * implicit_bit(target))) by {
                    vstd::arithmetic::div_mod::lemma_fundamental_div_mod(significand as int, weight as int);
                    assert((weight as int) * ((significand as int) / (weight as int)) >= (weight as int) * (2 * implicit_bit(target))) by (nonlinear_arith)
                        requires (significand as int) / (weight as int) >= 2 * implicit_bit(target), weight > 0;
                }
            }
        }
    }
    (significand / weight, significand % weight != 0)
}

/// What [`convert_nan`] produces: the default NaN under `FPCR.DN`; otherwise
/// a quiet NaN of the target with the source's sign and its payload moved so
/// it stays aligned to the top of the fraction. Invalid is raised for a
/// signalling source.
pub open spec fn nan_converted(bits: u64, source: FpFormat, target: FpFormat, control: FpControl) -> FpResult {
    let flags = raised(if source.signalling(bits) { FPSR_IOC } else { 0 });
    if control.is_default_nan {
        FpResult { bits: target.default_nan(), raised: flags }
    } else {
        let payload = source.fraction_field(bits);
        let moved = if target.mantissa_bits() >= source.mantissa_bits() {
            payload * pow2((target.mantissa_bits() - source.mantissa_bits()) as nat)
        } else {
            (payload as nat / pow2((source.mantissa_bits() - target.mantissa_bits()) as nat)) as int
        };
        FpResult {
            bits: (target.zero((bits / source.sign_weight()) % 2 == 1) + target.infinity() + target.quiet_bit()
                + moved % (target.quiet_bit() as int)) as u64,
            raised: flags,
        }
    }
}

/// Re-encodes a NaN into the target format, keeping as much payload as fits.
pub fn convert_nan(bits: u64, source: FpFormat, target: FpFormat, control: FpControl) -> (r: FpResult)
    ensures
        r == nan_converted(bits, source, target, control),
{
    let raised = if source.is_signalling_nan(bits) {
        FpExceptions::invalid()
    } else {
        FpExceptions::none()
    };
    if control.is_default_nan {
        return FpResult::raising(target.default_nan(), raised);
    }

    // The payload is left-aligned in both formats, so it is shifted rather
    // than truncated from the bottom.
    let payload = bits % (source.mantissa_mask() + 1);
    let source_bits = source.mantissa_bits();
    let target_bits = target.mantissa_bits();
    proof { lemma_implicit_bit(source); lemma_implicit_bit(target); }
    let moved = if target_bits >= source_bits {
        let weight = power_of_two(target_bits - source_bits);
        proof {
            lemma_pow2_pos((target_bits - source_bits) as nat);
            lemma_pow2_adds(source_bits as nat, (target_bits - source_bits) as nat);
            assert(payload * weight < (source.mantissa_mask() + 1) * weight) by (nonlinear_arith)
                requires payload < source.mantissa_mask() + 1, weight > 0;
        }
        payload * weight
    } else {
        let weight = power_of_two(source_bits - target_bits);
        proof { lemma_pow2_pos((source_bits - target_bits) as nat); }
        payload / weight
    };

    let sign = target.zero(source.is_negative(bits));
    FpResult::raising(sign + target.infinity() + target.quiet_bit() + moved % target.quiet_bit(), raised)
}

/// What [`convert_format`] returns: a NaN re-encoded; an infinity or zero of
/// the same sign in the target; otherwise the value rescaled to the target's
/// significand width and rounded.
pub open spec fn format_converted(bits: u64, source: FpFormat, target: FpFormat, control: FpControl, rounding: FpRounding) -> FpResult {
    let is_negative = (bits / source.sign_weight()) % 2 == 1;
    if source.nan(bits) {
        nan_converted(bits, source, target, control)
    } else if source.exponent_field(bits) == source.max_exponent() && source.fraction_field(bits) == 0 {
        FpResult { bits: target.signed_infinity(is_negative), raised: raised(0) }
    } else if bits == 0 || bits == source.sign_weight() {
        FpResult { bits: target.zero(is_negative), raised: raised(0) }
    } else {
        let value = unpacked_of(bits, source);
        let (significand, is_sticky) = rescaled(value.significand, source, target);
        rounded_and_packed(
            Unpacked { significand, ..value },
            target,
            RoundingContext { rounding, is_sticky, control },
        )
    }
}

/// Converts between two FP formats — `FCVT`.
pub fn convert_format(bits: u64, source: FpFormat, target: FpFormat, control: FpControl, rounding: FpRounding) -> (r: FpResult)
    ensures
        r == format_converted(bits, source, target, control, rounding),
{
    if source.is_nan(bits) {
        return convert_nan(bits, source, target, control);
    }
    if source.is_infinite(bits) {
        return FpResult::exact(target.signed_infinity(source.is_negative(bits)));
    }
    if source.is_zero(bits) {
        return FpResult::exact(target.zero(source.is_negative(bits)));
    }

    let value = unpack(bits, source);
    // The significand is re-scaled to the target's own width; widening is
    // exact, narrowing rounds.
    let significand = rescale(value.significand, source, target);
    round_and_pack(
        Unpacked { significand: significand.0, ..value },
        target,
        RoundingContext { rounding, is_sticky: significand.1, control },
    )
}

/// Whether a directed mode rounds a magnitude of this sign away from zero.
pub open spec fn directed_away(rounding: FpRounding, is_negative: bool) -> bool {
    (rounding == FpRounding::Plus && !is_negative) || (rounding == FpRounding::Minus && is_negative)
}

/// Whether a non-zero fractional remainder below a shift of `shift` rounds the
/// truncated magnitude up: by comparison with one half for the nearest modes,
/// by sign for the directed ones, and to an odd result for round-to-odd.
pub open spec fn remainder_rounds_away(truncated: u64, remainder: u64, shift: u32, rounding: FpRounding, is_negative: bool) -> bool {
    let half = pow2((shift - 1) as nat);
    match rounding {
        FpRounding::Nearest => remainder > half || (remainder == half && truncated % 2 == 1),
        FpRounding::NearestAway => remainder >= half,
        FpRounding::Zero => false,
        FpRounding::Plus => !is_negative,
        FpRounding::Minus => is_negative,
        FpRounding::Odd => truncated % 2 == 0,
    }
}

/// Whether a non-zero fractional remainder rounds the magnitude up.
pub fn rounds_away(truncated: u64, remainder: u64, shift: u32, rounding: FpRounding, value: Unpacked) -> (r: bool)
    requires
        1 <= shift < 64,
    ensures
        r == remainder_rounds_away(truncated, remainder, shift, rounding, value.is_negative),
{
    let half = power_of_two(shift - 1);
    match rounding {
        FpRounding::Nearest => remainder > half || (remainder == half && truncated % 2 == 1),
        FpRounding::NearestAway => remainder >= half,
        FpRounding::Zero => false,
        FpRounding::Plus => !value.is_negative,
        FpRounding::Minus => value.is_negative,
        FpRounding::Odd => truncated % 2 == 0,
    }
}

/// What [`round_significand_to_integer`] makes of a value below the integral
/// range: everything under the units place (`shift` bits, for an exponent
/// `scale - shift`) is rounded off by the mode; a result of zero is `None`.
/// A value under one unit entirely becomes one only in a directed mode that
/// points away from zero.
pub open spec fn integer_rounded(value: Unpacked, scale: u32, rounding: FpRounding) -> Option<Unpacked> {
    let shift = scale - value.exponent;
    if shift >= 64 {
        if directed_away(rounding, value.is_negative) {
            Some(Unpacked { exponent: 0, significand: pow2(scale as nat) as u64, ..value })
        } else {
            None
        }
    } else {
        let truncated = (value.significand as nat / pow2(shift as nat)) as u64;
        let remainder = (value.significand as nat % pow2(shift as nat)) as u64;
        let is_away = remainder != 0 && remainder_rounds_away(truncated, remainder, shift as u32, rounding, value.is_negative);
        let integral = truncated + if is_away { 1int } else { 0int };
        if integral == 0 {
            None
        } else {
            Some(Unpacked { significand: (integral * pow2(shift as nat)) as u64, ..value })
        }
    }
}

/// The value rounded to an integer, still in unpacked form.
///
/// `None` means the magnitude rounded away entirely, which the caller turns
/// into a signed zero. The returned value carries its own exponent so it cannot
/// drift out of step with the significand the shifting produced.
pub fn round_significand_to_integer(value: Unpacked, scale: u32, rounding: FpRounding) -> (r: Option<Unpacked>)
    requires
        value.exponent < scale,
        -1100 < value.exponent,
        scale < 64,
        value.significand < 0x100_0000_0000_0000,
    ensures
        r == integer_rounded(value, scale, rounding),
{
    // Bits below this position are the fractional part.
    let shift = (scale as i32 - value.exponent) as u32;
    if shift >= 64 {
        // Smaller than one unit; only a directed mode pointing away from zero
        // reaches it, and then the result is exactly one.
        let is_away = match rounding {
            FpRounding::Plus => !value.is_negative,
            FpRounding::Minus => value.is_negative,
            _ => false,
        };
        if is_away {
            return Some(Unpacked { exponent: 0, significand: power_of_two(scale), ..value });
        }
        return None;
    }

    let weight = power_of_two(shift);
    proof { lemma_pow2_pos(shift as nat); }
    let truncated = value.significand / weight;
    let remainder = value.significand % weight;
    let is_away = remainder != 0 && rounds_away(truncated, remainder, shift, rounding, value);
    let integral = truncated + if is_away { 1 } else { 0 };
    if integral == 0 {
        return None;
    }

    proof {
        vstd::arithmetic::div_mod::lemma_fundamental_div_mod(value.significand as int, weight as int);
        vstd::bits::lemma_u64_pow2_no_overflow(shift as nat);
        assert(integral * weight <= value.significand + weight) by (nonlinear_arith)
            requires
                integral <= truncated + 1,
                value.significand == weight * truncated + remainder,
                remainder >= 0,
                weight > 0;
        lemma2_to64();
        vstd::arithmetic::power2::lemma2_to64_rest();
        if shift < 63 {
            lemma_pow2_strictly_increases(shift as nat, 63);
        }
    }
    // Shifting back up restores the original exponent's scale, so the exponent
    // is unchanged rather than replaced.
    Some(Unpacked { significand: integral * weight, ..value })
}

/// What [`round_to_integral`] returns: NaN propagation; an infinity, a zero
/// or an already integral value unchanged; otherwise the value rounded to an
/// integer in the mode, a signed zero if nothing is left, and packed.
pub open spec fn integral_rounded(bits: u64, format: FpFormat, rounding: FpRounding, control: FpControl) -> FpResult {
    let value = unpacked_of(bits, format);
    let scale = unpacked_scale(format);
    if propagated(seq![bits], format, control) is Some {
        propagated(seq![bits], format, control)->0
    } else if (format.exponent_field(bits) == format.max_exponent() && format.fraction_field(bits) == 0)
        || bits == 0 || bits == format.sign_weight() {
        FpResult { bits, raised: raised(0) }
    } else if value.exponent >= scale {
        FpResult { bits, raised: raised(0) }
    } else {
        match integer_rounded(value, scale as u32, rounding) {
            None => FpResult { bits: format.zero(value.is_negative), raised: raised(0) },
            Some(integral) => rounded_and_packed(
                Unpacked { is_negative: value.is_negative, exponent: integral.exponent, significand: integral.significand },
                format,
                RoundingContext { rounding, is_sticky: false, control },
            ),
        }
    }
}

/// Rounds to an integral value in the same format — the `FRINT` family.
pub fn round_to_integral(bits: u64, format: FpFormat, rounding: FpRounding, control: FpControl) -> (r: FpResult)
    ensures
        r == integral_rounded(bits, format, rounding, control),
{
    let operands = [bits];
    assert(operands@ =~= seq![bits]);
    match nan::propagate(&operands, format, control) {
        Some(result) => return result,
        None => {},
    }
    if format.is_infinite(bits) || format.is_zero(bits) {
        return FpResult::exact(bits);
    }

    let value = unpack(bits, format);
    let scale = format.mantissa_bits() + 3;
    proof { lemma_implicit_bit(format); }
    // A value whose exponent is at or above the significand width is already
    // integral, so there is nothing to round.
    if value.exponent >= scale as i32 {
        return FpResult::exact(bits);
    }

    match round_significand_to_integer(value, scale, rounding) {
        // Everything below the units place was discarded, so the result is a
        // zero — signed, because `rint(-0.4)` is `-0.0`.
        None => FpResult::exact(format.zero(value.is_negative)),
        Some(integral) => round_and_pack(
            Unpacked {
                is_negative: value.is_negative,
                exponent: integral.exponent,
                significand: integral.significand,
            },
            format,
            RoundingContext { rounding, is_sticky: false, control },
        ),
    }
}

/// An integer format the conversions accept: between one and 64 bits wide.
pub open spec fn integer_width_ok(format: IntFormat) -> bool {
    1 <= format.bits <= 64
}

/// `value` truncated to the target's width.
pub open spec fn masked_to_width(value: u64, target: IntFormat) -> u64 {
    if target.bits >= 64 { value } else { (value as nat % pow2(target.bits as nat)) as u64 }
}

/// Truncates to the target's width.
pub fn mask_to_width(value: u64, target: IntFormat) -> (r: u64)
    ensures
        r == masked_to_width(value, target),
{
    if target.bits >= 64 {
        value
    } else {
        let weight = power_of_two(target.bits);
        proof { lemma_pow2_pos(target.bits as nat); }
        value % weight
    }
}

/// The largest magnitude the target can hold with this sign: `2^bits - 1`
/// unsigned, and `2^(bits - 1)` below zero or `2^(bits - 1) - 1` above it
/// signed.
pub open spec fn limit_of(is_negative: bool, target: IntFormat) -> u128 {
    if !target.is_signed {
        (pow2(target.bits as nat) - 1) as u128
    } else if is_negative {
        pow2((target.bits - 1) as nat) as u128
    } else {
        (pow2((target.bits - 1) as nat) - 1) as u128
    }
}

/// The largest magnitude the target can hold with this sign.
pub fn magnitude_limit(is_negative: bool, target: IntFormat) -> (r: u128)
    requires
        integer_width_ok(target),
    ensures
        r == limit_of(is_negative, target),
{
    let width = target.bits;
    proof {
        lemma_pow2_pos(width as nat);
        lemma_pow2_pos((width - 1) as nat);
    }
    if !target.is_signed {
        return wide_power_of_two(width) - 1;
    }
    if is_negative {
        wide_power_of_two(width - 1)
    } else {
        wide_power_of_two(width - 1) - 1
    }
}

/// The saturated result for an out-of-range conversion: the extreme of the
/// target's range on the value's side, truncated to its width.
pub open spec fn saturated(is_negative: bool, target: IntFormat) -> u64 {
    let value: u64 = if !target.is_signed {
        if is_negative { 0 } else { u64::MAX }
    } else if is_negative {
        pow2((target.bits - 1) as nat) as u64
    } else {
        (pow2((target.bits - 1) as nat) - 1) as u64
    };
    masked_to_width(value, target)
}

/// The saturated result for an out-of-range conversion.
pub fn saturate(is_negative: bool, target: IntFormat) -> (r: u64)
    requires
        integer_width_ok(target),
    ensures
        r == saturated(is_negative, target),
{
    let width = target.bits;
    proof { lemma_pow2_pos((width - 1) as nat); }
    let value = if !target.is_signed {
        if is_negative { 0 } else { u64::MAX }
    } else if is_negative {
        power_of_two(width - 1)
    } else {
        power_of_two(width - 1) - 1
    };
    mask_to_width(value, target)
}

/// `value` negated in two's complement, within 64 bits.
pub open spec fn negated(value: u64) -> u64 {
    if value == 0 { 0 } else { (0x1_0000_0000_0000_0000int - value) as u64 }
}

/// Two's complement negation within 64 bits.
pub fn negate(value: u64) -> (r: u64)
    ensures
        r == negated(value),
{
    if value == 0 { 0 } else { u64::MAX - value + 1 }
}

/// What [`encode_integer`] makes of a rounded magnitude: invalid and zero for
/// a negative value and an unsigned target; invalid and the saturated value
/// beyond the target's range; otherwise the value in two's complement,
/// truncated to the target's width, raising inexact if rounding lost
/// anything.
pub open spec fn encoded(magnitude: u128, is_negative: bool, is_inexact: bool, target: IntFormat) -> FpResult {
    if !target.is_signed && is_negative {
        FpResult { bits: 0, raised: raised(FPSR_IOC) }
    } else if magnitude > limit_of(is_negative, target) {
        FpResult { bits: saturated(is_negative, target), raised: raised(FPSR_IOC) }
    } else {
        let value = if is_negative { negated(magnitude as u64) } else { magnitude as u64 };
        FpResult { bits: masked_to_width(value, target), raised: raised(if is_inexact { FPSR_IXC } else { 0 }) }
    }
}

/// Fits a magnitude into the target integer, saturating out of range.
pub fn encode_integer(magnitude: u128, is_negative: bool, is_inexact: bool, target: IntFormat) -> (r: FpResult)
    requires
        integer_width_ok(target),
    ensures
        r == encoded(magnitude, is_negative, is_inexact, target),
{
    let inexact = if is_inexact { FpExceptions::inexact() } else { FpExceptions::none() };

    if !target.is_signed && is_negative {
        // A negative value has no unsigned representation; only an exact zero
        // would, and that was handled before unpacking.
        return FpResult::raising(0, FpExceptions::invalid());
    }

    let limit = magnitude_limit(is_negative, target);
    if magnitude > limit {
        return FpResult::raising(saturate(is_negative, target), FpExceptions::invalid());
    }

    let value = if is_negative { negate(magnitude as u64) } else { magnitude as u64 };
    FpResult::raising(mask_to_width(value, target), inexact)
}

/// What [`integral_magnitude`] makes of a finite non-zero value: its
/// magnitude rounded to an integer by the mode, and whether rounding lost
/// anything. A value at or above the significand's scale is shifted up
/// exactly (wrapping at 128 bits, and a placeholder of all ones from a shift
/// of 128 up, which the caller saturates); one entirely below the units place
/// becomes one in a directed mode pointing away from zero and zero otherwise.
pub open spec fn magnitude_rounded(value: Unpacked, scale: u32, rounding: FpRounding) -> (u128, bool) {
    let shift = value.exponent - scale;
    if shift >= 0 {
        if shift >= 128 {
            (u128::MAX, false)
        } else {
            (((value.significand * pow2(shift as nat)) % 0x1_0000_0000_0000_0000_0000_0000_0000_0000int) as u128, false)
        }
    } else if -shift >= 64 {
        (if directed_away(rounding, value.is_negative) { 1u128 } else { 0u128 }, true)
    } else {
        let down = (-shift) as u32;
        let truncated = (value.significand as nat / pow2(down as nat)) as u64;
        let remainder = (value.significand as nat % pow2(down as nat)) as u64;
        if remainder == 0 {
            (truncated as u128, false)
        } else {
            let is_away = remainder_rounds_away(truncated, remainder, down, rounding, value.is_negative);
            ((truncated + if is_away { 1int } else { 0int }) as u128, true)
        }
    }
}

/// The rounded absolute value, as an integer, plus whether rounding lost
/// anything.
pub fn integral_magnitude(value: Unpacked, scale: u32, rounding: FpRounding) -> (r: (u128, bool))
    requires
        -1100 < value.exponent < 1400,
        scale < 64,
        value.significand < 0x100_0000_0000_0000,
    ensures
        r == magnitude_rounded(value, scale, rounding),
{
    let shift = value.exponent - scale as i32;
    if shift >= 0 {
        // Shifting past 127 means the value is far out of any integer's range;
        // the caller saturates, so a saturated placeholder is enough.
        if shift >= 128 {
            return (u128::MAX, false);
        }
        return ((value.significand as u128).wrapping_mul(wide_power_of_two(shift as u32)), false);
    }

    let shift = (-shift) as u32;
    if shift >= 64 {
        let is_away = match rounding {
            FpRounding::Plus => !value.is_negative,
            FpRounding::Minus => value.is_negative,
            _ => false,
        };
        return (if is_away { 1 } else { 0 }, true);
    }

    let weight = power_of_two(shift);
    proof { lemma_pow2_pos(shift as nat); }
    let truncated = value.significand / weight;
    let remainder = value.significand % weight;
    if remainder == 0 {
        return (truncated as u128, false);
    }

    let is_away = rounds_away(truncated, remainder, shift, rounding, value);
    proof {
        assert(truncated <= value.significand) by {
            vstd::arithmetic::div_mod::lemma_div_is_ordered_by_denominator(value.significand as int, 1, weight as int);
        }
    }
    ((truncated + if is_away { 1 } else { 0 }) as u128, true)
}

/// What [`to_integer`] returns: a NaN converts to zero and an infinity to
/// the saturated value, both raising invalid; a zero converts to zero;
/// otherwise the magnitude rounded by the mode and encoded.
pub open spec fn integer_converted(bits: u64, format: FpFormat, target: IntFormat, rounding: FpRounding) -> FpResult {
    let is_negative = (bits / format.sign_weight()) % 2 == 1;
    if format.nan(bits) {
        FpResult { bits: 0, raised: raised(FPSR_IOC) }
    } else if format.exponent_field(bits) == format.max_exponent() && format.fraction_field(bits) == 0 {
        FpResult { bits: saturated(is_negative, target), raised: raised(FPSR_IOC) }
    } else if bits == 0 || bits == format.sign_weight() {
        FpResult { bits: 0, raised: raised(0) }
    } else {
        let (magnitude, is_inexact) = magnitude_rounded(unpacked_of(bits, format), unpacked_scale(format) as u32, rounding);
        encoded(magnitude, is_negative, is_inexact, target)
    }
}

/// FP to integer, saturating on overflow.
pub fn to_integer(bits: u64, format: FpFormat, target: IntFormat, rounding: FpRounding) -> (r: FpResult)
    requires
        integer_width_ok(target),
    ensures
        r == integer_converted(bits, format, target, rounding),
{
    if format.is_nan(bits) {
        // A NaN converts to zero and raises invalid, not to a saturated value.
        return FpResult::raising(0, FpExceptions::invalid());
    }

    let is_negative = format.is_negative(bits);
    if format.is_infinite(bits) {
        return FpResult::raising(saturate(is_negative, target), FpExceptions::invalid());
    }
    if format.is_zero(bits) {
        return FpResult::exact(0);
    }

    let value = unpack(bits, format);
    let scale = format.mantissa_bits() + 3;
    proof { lemma_implicit_bit(format); }
    let (magnitude, is_inexact) = integral_magnitude(value, scale, rounding);

    encode_integer(magnitude, is_negative, is_inexact, target)
}

/// What [`magnitude_of`] makes of an integer of `source`'s width: its
/// magnitude and sign, reading the top bit as the sign when signed.
pub open spec fn split_magnitude(value: u64, source: IntFormat) -> (u64, bool) {
    let masked = masked_to_width(value, source);
    if !source.is_signed || (masked as nat / pow2((source.bits - 1) as nat)) % 2 == 0 {
        (masked, false)
    } else {
        (masked_to_width(negated(masked), source), true)
    }
}

/// Splits a possibly-signed integer into magnitude and sign.
pub fn magnitude_of(value: u64, source: IntFormat) -> (r: (u64, bool))
    requires
        integer_width_ok(source),
    ensures
        r == split_magnitude(value, source),
{
    let value = mask_to_width(value, source);
    if !source.is_signed {
        return (value, false);
    }

    let sign_bit = power_of_two(source.bits - 1);
    proof { lemma_pow2_pos((source.bits - 1) as nat); }
    if (value / sign_bit) % 2 == 0 {
        return (value, false);
    }
    // Two's complement negation, within the source's width.
    (mask_to_width(negate(value), source), true)
}

/// What [`from_integer`] returns: a zero for a zero magnitude; otherwise the
/// magnitude with its leading bit as the exponent, aligned to the target's
/// significand scale (bits shifted out folded into the sticky flag), and
/// rounded.
pub open spec fn integer_to_fp(value: u64, source: IntFormat, target: FpFormat, rounding: FpRounding, control: FpControl) -> FpResult {
    let (magnitude, is_negative) = split_magnitude(value, source);
    if magnitude == 0 {
        FpResult { bits: target.zero(false), raised: raised(0) }
    } else {
        let scale = unpacked_scale(target);
        let leading = (bit_length(magnitude as nat) - 1) as nat;
        let (significand, is_sticky) = if leading <= scale {
            ((magnitude * pow2((scale - leading) as nat)) as u64, false)
        } else {
            let shift = (leading - scale) as nat;
            ((magnitude as nat / pow2(shift)) as u64, magnitude as nat % pow2(shift) != 0)
        };
        rounded_and_packed(
            Unpacked { is_negative, exponent: leading as i32, significand },
            target,
            RoundingContext { rounding, is_sticky, control },
        )
    }
}

/// Integer to FP.
pub fn from_integer(value: u64, source: IntFormat, target: FpFormat, rounding: FpRounding, control: FpControl) -> (r: FpResult)
    requires
        integer_width_ok(source),
    ensures
        r == integer_to_fp(value, source, target, rounding, control),
{
    let (magnitude, is_negative) = magnitude_of(value, source);
    if magnitude == 0 {
        return FpResult::exact(target.zero(false));
    }

    let scale = target.mantissa_bits() + 3;
    // The exponent is the position of the leading bit; the significand is then
    // aligned to the format's own scale.
    proof {
        lemma_bit_length_bounds(magnitude as nat);
        super::decompose::lemma_leading_zeros(magnitude);
        vstd::std_specs::bits::axiom_u64_leading_zeros(magnitude);
    }
    let leading = 63 - magnitude.leading_zeros();
    let (significand, is_sticky) = if leading <= scale {
        let weight = power_of_two(scale - leading);
        proof {
            lemma_pow2_pos((scale - leading) as nat);
            lemma_pow2_unfold(leading as nat + 1);
            lemma_pow2_adds(leading as nat, (scale - leading) as nat);
            lemma2_to64();
            assert(scale <= 55);
            if scale < 55 {
                lemma_pow2_strictly_increases(scale as nat, 55);
            }
            assert(magnitude * weight < 2 * pow2(leading as nat) * weight) by (nonlinear_arith)
                requires magnitude < 2 * pow2(leading as nat), weight > 0;
            assert(2 * pow2(leading as nat) * weight == 2 * pow2(scale as nat)) by (nonlinear_arith)
                requires pow2(leading as nat) * weight == pow2(scale as nat);
            vstd::arithmetic::power2::lemma2_to64_rest();
        }
        (magnitude * weight, false)
    } else {
        let shift = leading - scale;
        let weight = power_of_two(shift);
        proof { lemma_pow2_pos(shift as nat); }
        (magnitude / weight, magnitude % weight != 0)
    };

    round_and_pack(
        Unpacked { is_negative, exponent: leading as i32, significand },
        target,
        RoundingContext { rounding, is_sticky, control },
    )
}

/// What [`to_fixed_point`] returns: what [`to_integer`] does, except that a
/// finite non-zero value is scaled by `2^fractional_bits` before rounding.
pub open spec fn fixed_converted(bits: u64, format: FpFormat, target: IntFormat, rounding: FpRounding, fractional_bits: u8) -> FpResult {
    let is_negative = (bits / format.sign_weight()) % 2 == 1;
    if format.nan(bits) {
        FpResult { bits: 0, raised: raised(FPSR_IOC) }
    } else if format.exponent_field(bits) == format.max_exponent() && format.fraction_field(bits) == 0 {
        FpResult { bits: saturated(is_negative, target), raised: raised(FPSR_IOC) }
    } else if bits == 0 || bits == format.sign_weight() {
        FpResult { bits: 0, raised: raised(0) }
    } else {
        let value = unpacked_of(bits, format);
        let scaled = Unpacked { exponent: (value.exponent + fractional_bits) as i32, ..value };
        let (magnitude, is_inexact) = magnitude_rounded(scaled, unpacked_scale(format) as u32, rounding);
        encoded(magnitude, is_negative, is_inexact, target)
    }
}

/// FP to fixed point — `FCVTZS` and `FCVTZU` with a scale: the value times
/// `2^fractional_bits`, converted as [`to_integer`] converts.
pub fn to_fixed_point(bits: u64, format: FpFormat, target: IntFormat, rounding: FpRounding, fractional_bits: u8) -> (r: FpResult)
    requires
        integer_width_ok(target),
    ensures
        r == fixed_converted(bits, format, target, rounding, fractional_bits),
{
    if format.is_nan(bits) {
        return FpResult::raising(0, FpExceptions::invalid());
    }

    let is_negative = format.is_negative(bits);
    if format.is_infinite(bits) {
        return FpResult::raising(saturate(is_negative, target), FpExceptions::invalid());
    }
    if format.is_zero(bits) {
        return FpResult::exact(0);
    }

    let value = unpack(bits, format);
    let scaled = Unpacked { exponent: value.exponent + fractional_bits as i32, ..value };
    let scale = format.mantissa_bits() + 3;
    proof { lemma_implicit_bit(format); }
    let (magnitude, is_inexact) = integral_magnitude(scaled, scale, rounding);

    encode_integer(magnitude, is_negative, is_inexact, target)
}

/// What [`from_fixed_point`] returns: what [`from_integer`] does, except
/// that the result is divided by `2^fractional_bits`.
pub open spec fn fixed_to_fp(value: u64, source: IntFormat, target: FpFormat, rounding: FpRounding, control: FpControl, fractional_bits: u8) -> FpResult {
    let (magnitude, is_negative) = split_magnitude(value, source);
    if magnitude == 0 {
        FpResult { bits: target.zero(false), raised: raised(0) }
    } else {
        let scale = unpacked_scale(target);
        let leading = (bit_length(magnitude as nat) - 1) as nat;
        let (significand, is_sticky) = if leading <= scale {
            ((magnitude * pow2((scale - leading) as nat)) as u64, false)
        } else {
            let shift = (leading - scale) as nat;
            ((magnitude as nat / pow2(shift)) as u64, magnitude as nat % pow2(shift) != 0)
        };
        rounded_and_packed(
            Unpacked { is_negative, exponent: (leading - fractional_bits) as i32, significand },
            target,
            RoundingContext { rounding, is_sticky, control },
        )
    }
}

/// Fixed point to FP — `SCVTF` and `UCVTF` with a scale: the integer divided
/// by `2^fractional_bits`, converted as [`from_integer`] converts.
pub fn from_fixed_point(value: u64, source: IntFormat, target: FpFormat, rounding: FpRounding, control: FpControl, fractional_bits: u8) -> (r: FpResult)
    requires
        integer_width_ok(source),
    ensures
        r == fixed_to_fp(value, source, target, rounding, control, fractional_bits),
{
    let (magnitude, is_negative) = magnitude_of(value, source);
    if magnitude == 0 {
        return FpResult::exact(target.zero(false));
    }

    let scale = target.mantissa_bits() + 3;
    proof {
        lemma_bit_length_bounds(magnitude as nat);
        super::decompose::lemma_leading_zeros(magnitude);
        vstd::std_specs::bits::axiom_u64_leading_zeros(magnitude);
    }
    let leading = 63 - magnitude.leading_zeros();
    let (significand, is_sticky) = if leading <= scale {
        let weight = power_of_two(scale - leading);
        proof {
            lemma_pow2_pos((scale - leading) as nat);
            lemma_pow2_unfold(leading as nat + 1);
            lemma_pow2_adds(leading as nat, (scale - leading) as nat);
            lemma2_to64();
            if scale < 55 {
                lemma_pow2_strictly_increases(scale as nat, 55);
            }
            assert(magnitude * weight < 2 * pow2(leading as nat) * weight) by (nonlinear_arith)
                requires magnitude < 2 * pow2(leading as nat), weight > 0;
            assert(2 * pow2(leading as nat) * weight == 2 * pow2(scale as nat)) by (nonlinear_arith)
                requires pow2(leading as nat) * weight == pow2(scale as nat);
            vstd::arithmetic::power2::lemma2_to64_rest();
        }
        (magnitude * weight, false)
    } else {
        let shift = leading - scale;
        let weight = power_of_two(shift);
        proof { lemma_pow2_pos(shift as nat); }
        (magnitude / weight, magnitude % weight != 0)
    };

    round_and_pack(
        Unpacked { is_negative, exponent: leading as i32 - fractional_bits as i32, significand },
        target,
        RoundingContext { rounding, is_sticky, control },
    )
}

/// Whether `target` holds every value of `source` exactly: a wider fraction
/// and a wider exponent range.
pub open spec fn widens(source: FpFormat, target: FpFormat) -> bool {
    (source == FpFormat::Half && (target == FpFormat::Single || target == FpFormat::Double))
        || (source == FpFormat::Single && target == FpFormat::Double)
}

/// The finite non-zero part of [`lemma_widening_round_trip`]: the unpacked
/// significand, raised to the target's scale, is already normalised and has
/// nothing below its guard bits, so it packs exactly; unpacking that and
/// lowering it again gives back the source's unpacked value.
#[verifier::rlimit(60)]
#[verifier::spinoff_prover]
proof fn lemma_widening_finite(bits: u64, source: FpFormat, target: FpFormat, control: FpControl, rounding: FpRounding)
    requires
        widens(source, target),
        bits <= source.mask(),
        !source.nan(bits),
        !super::decompose::flushes(source, control),
        !super::decompose::flushes(target, control),
        source.exponent_field(bits) != source.max_exponent(),
        source.exponent_field(bits) != 0 || source.fraction_field(bits) != 0,
    ensures
        format_converted(bits, source, target, control, rounding).raised == raised(0),
        format_converted(format_converted(bits, source, target, control, rounding).bits, target, source, control, rounding)
            == (FpResult { bits, raised: raised(0) }),
{
    let wide = format_converted(bits, source, target, control, rounding);
    let is_negative = (bits / source.sign_weight()) % 2 == 1;
    let exponent = source.exponent_field(bits);
    let fraction = source.fraction_field(bits);
    crate::fp::softfloat::compare::lemma_fields(source, bits);
    lemma_implicit_bit(source);
    lemma_implicit_bit(target);
    lemma2_to64();
    let magnitude = if is_negative { bits - source.sign_weight() } else { bits as int };
    assert(magnitude == exponent * (source.mantissa_mask() + 1) + fraction);
    let value = unpacked_of(bits, source);
    assert(value.significand == 0 <==> (exponent == 0 && fraction == 0)) by {
        if exponent == 0 {
            super::decompose::lemma_subnormal_shift(fraction as nat, (source.mantissa_mask() + 1) as nat, source.mantissa_bits() as nat);
        }
    }
    let t_s = implicit_bit(source) as int;
    let t_t = implicit_bit(target) as int;
    let shift = (target.mantissa_bits() - source.mantissa_bits()) as nat;
    assert(t_s <= value.significand < 2 * t_s) by {
        if exponent == 0 {
            super::decompose::lemma_subnormal_shift(fraction as nat, (source.mantissa_mask() + 1) as nat, source.mantissa_bits() as nat);
        }
    }
    lemma_pow2_adds((source.mantissa_bits() + 3) as nat, shift);
    lemma_pow2_pos(shift);
    let weight = pow2(shift) as int;
    assert(t_t == t_s * weight);
    let widened = value.significand * weight;
    assert(t_t <= widened < 2 * t_t) by (nonlinear_arith)
        requires t_s <= value.significand < 2 * t_s, t_t == t_s * weight, weight > 0, widened == value.significand * weight;
    assert(rescaled(value.significand, source, target) == (widened as u64, false));
    assert(value.significand % 8 == 0) by {
        if exponent == 0 {
            let s = super::decompose::subnormal_shift(fraction as nat, (source.mantissa_mask() + 1) as nat);
            super::decompose::lemma_subnormal_shift(fraction as nat, (source.mantissa_mask() + 1) as nat, source.mantissa_bits() as nat);
            let scaled = fraction * pow2(s);
            assert(scaled * 8 < 0x100_0000_0000_0000);
            assert(value.significand == scaled * 8);
            assert((scaled * 8) % 8 == 0) by (nonlinear_arith);
        } else {
            let whole = (fraction + source.mantissa_mask() + 1) as int;
            assert(value.significand == whole * 8);
            assert((whole * 8) % 8 == 0) by (nonlinear_arith);
        }
    }
    let eighths = value.significand / 8;
    assert(widened == 8 * (eighths * weight)) by (nonlinear_arith)
        requires widened == value.significand * weight, value.significand == 8 * eighths;
    vstd::arithmetic::div_mod::lemma_mod_multiples_basic(eighths * weight, 8);
    assert(widened % 8 == 0);
    assert(-1100 < value.exponent <= source.exponent_bias()) by {
        if exponent == 0 {
            super::decompose::lemma_subnormal_shift(fraction as nat, (source.mantissa_mask() + 1) as nat, source.mantissa_bits() as nat);
        }
    }
    assert(value.exponent >= 1 - source.exponent_bias() - source.mantissa_bits()) by {
        if exponent == 0 {
            super::decompose::lemma_subnormal_shift(fraction as nat, (source.mantissa_mask() + 1) as nat, source.mantissa_bits() as nat);
        }
    }
    assert(magnitude > 0) by (nonlinear_arith)
        requires magnitude == exponent * (source.mantissa_mask() + 1) + fraction, exponent > 0 || fraction > 0,
            exponent >= 0, fraction >= 0, source.mantissa_mask() + 1 > 0;
    vstd::arithmetic::div_mod::lemma_div_by_self(source.sign_weight() as int);
    vstd::arithmetic::div_mod::lemma_div_by_self(target.sign_weight() as int);
    assert(bits == source.zero(is_negative) + magnitude);
    assert(bits != 0 && bits != source.sign_weight());
    let wide_value = Unpacked { significand: widened as u64, ..value };
    let target_span = target.mantissa_mask() + 1;
    let wide_field = (value.exponent + target.exponent_bias()) as nat;
    let wide_fraction = ((widened / 8) as int % target_span) as nat;
    assert(widened / 8 >= target_span && widened / 8 < 2 * target_span);
    assert(wide_fraction == widened / 8 - target_span) by (nonlinear_arith)
        requires wide_fraction == (widened / 8) % target_span, target_span <= widened / 8 < 2 * target_span;
    super::decompose::lemma_compose_fields(target, is_negative, wide_field, wide_fraction);
    let wide_bits = (target.zero(is_negative) + wide_field * target_span + wide_fraction) as u64;
    assert(super::decompose::shrunk(widened as nat, value.exponent as int, false, t_t as nat)
        == (widened as nat, value.exponent as int, false));
    assert(super::decompose::grown(widened as nat, value.exponent as int, t_t as nat)
        == (widened as nat, value.exponent as int));
    assert(super::decompose::normalised(wide_value, false, target) == (wide_value, false));
    assert(super::decompose::rounded_significand(widened as u64, value.exponent, false, rounding, is_negative)
        == (widened as u64, value.exponent, raised(0)));
    assert(value.exponent >= 1 - target.exponent_bias());
    assert(value.exponent <= target.exponent_bias());
    let context = super::decompose::RoundingContext { rounding, is_sticky: false, control };
    assert(super::decompose::packed(wide_value, false, target, context) == (FpResult { bits: wide_bits, raised: raised(0) }));
    assert(wide_field != 0);
    assert(super::decompose::flushed(FpResult { bits: wide_bits, raised: raised(0) }, target, control)
        == (FpResult { bits: wide_bits, raised: raised(0) }));
    assert(rounded_and_packed(wide_value, target, context) == (FpResult { bits: wide_bits, raised: raised(0) }));
    assert(wide == (FpResult { bits: wide_bits, raised: raised(0) }));

    // Back down: the wide value unpacks to the widened significand.
    assert(!target.nan(wide_bits));
    assert(wide_field < target.max_exponent());
    assert(wide_bits != 0 && wide_bits != target.sign_weight()) by {
        assert(wide_field * target_span > 0) by (nonlinear_arith)
            requires wide_field > 0, target_span > 0;
    }
    assert(unpacked_of(wide_bits, target) == wide_value);
    vstd::arithmetic::div_mod::lemma_div_multiples_vanish(value.significand as int, weight);
    vstd::arithmetic::div_mod::lemma_mod_multiples_basic(value.significand as int, weight);
    assert(widened == weight * value.significand) by (nonlinear_arith)
        requires widened == value.significand * weight;
    assert(rescaled(widened as u64, target, source) == (value.significand, false));
    assert(Unpacked { significand: value.significand, ..wide_value } == value);
    super::decompose::lemma_round_trip(bits, source, rounding, control);
    assert(format_converted(wide_bits, target, source, control, rounding)
        == rounded_and_packed(value, source, context));
}

/// Widening is exact and narrowing undoes it: for every in-format value of
/// `source` that is not a NaN, converting to a wider `target` raises nothing,
/// and converting the result back, in any rounding mode, gives the starting
/// bits and raises nothing, provided flush-to-zero is off for both formats.
pub proof fn lemma_widening_round_trip(bits: u64, source: FpFormat, target: FpFormat, control: FpControl, rounding: FpRounding)
    requires
        widens(source, target),
        bits <= source.mask(),
        !source.nan(bits),
        !super::decompose::flushes(source, control),
        !super::decompose::flushes(target, control),
    ensures
        format_converted(bits, source, target, control, rounding).raised == raised(0),
        format_converted(format_converted(bits, source, target, control, rounding).bits, target, source, control, rounding)
            == (FpResult { bits, raised: raised(0) }),
{
    let wide = format_converted(bits, source, target, control, rounding);
    let is_negative = (bits / source.sign_weight()) % 2 == 1;
    let exponent = source.exponent_field(bits);
    let fraction = source.fraction_field(bits);
    crate::fp::softfloat::compare::lemma_fields(source, bits);
    lemma_implicit_bit(source);
    lemma_implicit_bit(target);
    lemma2_to64();
    let magnitude = if is_negative { bits - source.sign_weight() } else { bits as int };
    assert(magnitude == exponent * (source.mantissa_mask() + 1) + fraction);
    source.lemma_infinity_fields();
    target.lemma_infinity_fields();
    if exponent == source.max_exponent() {
        // An infinity widens to the infinity of its sign and narrows back.
        assert(fraction == 0);
        super::decompose::lemma_compose_fields(target, is_negative, target.max_exponent() as nat, 0);
        super::decompose::lemma_compose_fields(source, is_negative, source.max_exponent() as nat, 0);
        assert(wide.bits == target.signed_infinity(is_negative));
        assert(target.signed_infinity(is_negative) == target.zero(is_negative) + target.max_exponent() * (target.mantissa_mask() + 1));
        assert(source.signed_infinity(is_negative) == source.zero(is_negative) + source.max_exponent() * (source.mantissa_mask() + 1));
        assert(bits == source.zero(is_negative) + magnitude);
        assert(magnitude == source.max_exponent() * (source.mantissa_mask() + 1)) by (nonlinear_arith)
            requires magnitude == exponent * (source.mantissa_mask() + 1) + fraction, exponent == source.max_exponent(), fraction == 0;
    } else if exponent == 0 && fraction == 0 {
        // A zero widens to the zero of its sign and narrows back.
        assert(magnitude == 0) by (nonlinear_arith)
            requires magnitude == exponent * (source.mantissa_mask() + 1) + fraction, exponent == 0, fraction == 0;
        super::decompose::lemma_compose_fields(target, is_negative, 0, 0);
        assert(wide.bits == target.zero(is_negative));
    } else {
        lemma_widening_finite(bits, source, target, control, rounding);
    }
}

} // verus!

verus! {

/// Masking to a width twice is masking once.
proof fn lemma_masked_twice(value: u64, format: IntFormat)
    ensures
        masked_to_width(masked_to_width(value, format), format) == masked_to_width(value, format),
{
    if format.bits < 64 {
        let m = pow2(format.bits as nat);
        vstd::arithmetic::power2::lemma_pow2_pos(format.bits as nat);
        vstd::arithmetic::div_mod::lemma_mod_pos_bound(value as int, m as int);
        vstd::arithmetic::div_mod::lemma_mod_decreases(value as nat, m);
        vstd::arithmetic::div_mod::lemma_small_mod((value as nat % m) as nat, m);
        let once = masked_to_width(value, format);
        assert(once as nat == value as nat % m);
        assert(once as nat % m == once as nat);
    }
}

/// An integer source is read at its own width only: converting `value` gives
/// what converting its low `source.bits` bits gives, whatever lies above.
pub proof fn lemma_from_integer_reads_its_width(
    value: u64,
    source: IntFormat,
    target: FpFormat,
    rounding: FpRounding,
    control: FpControl,
)
    ensures
        integer_to_fp(value, source, target, rounding, control)
            == integer_to_fp(masked_to_width(value, source), source, target, rounding, control),
{
    lemma_masked_twice(value, source);
    assert(split_magnitude(value, source) == split_magnitude(masked_to_width(value, source), source));
}

/// Conversion between formats is correctly rounded: with flush-to-zero off
/// for the target and any mode but round-to-odd, for a finite non-zero
/// operand, not a NaN, the result is the operand's value correctly rounded
/// in the target format. The exact value, in units of the target's
/// significand, is the source significand times two to the target's scale
/// over two to the source's; `correctly_packed` says what rounding it gives
/// in each range, once the value is normalised and rescaled to it.
pub proof fn lemma_conversion_is_correctly_rounded(
    bits: u64,
    source: FpFormat,
    target: FpFormat,
    control: FpControl,
    rounding: FpRounding,
)
    requires
        !flushes(target, control),
        rounding != FpRounding::Odd,
        bits <= source.mask(),
        !source.nan(bits),
        !(source.exponent_field(bits) == source.max_exponent() && source.fraction_field(bits) == 0),
        bits != 0 && bits != source.sign_weight(),
    ensures
        ({
            let value = unpacked_of(bits, source);
            let (significand, is_sticky) = rescaled(value.significand, source, target);
            let moved = Unpacked { significand, ..value };
            let n = value.significand * pow2(unpacked_scale(target));
            let d = pow2(unpacked_scale(source)) as int;
            let (normal, sticky) = normalised(moved, is_sticky, target);
            let (n2, d2) = super::decompose::rescaled(n, d, moved, normal);
            &&& exact_near(normal.significand as int, sticky, n2, d2, normal_width(moved, normal, sticky))
            &&& correctly_packed(normal, sticky, target, rounding, format_converted(bits, source, target, control, rounding), n2, d2)
        }),
{
    lemma_unpacked_shape(bits, source);
    lemma_implicit_bit(source);
    lemma_implicit_bit(target);
    lemma2_to64();
    let value = unpacked_of(bits, source);
    crate::fp::softfloat::compare::lemma_fields(source, bits);
    if source.exponent_field(bits) == 0 && source.fraction_field(bits) == 0 {
        assert(source.exponent_field(bits) * (source.mantissa_mask() + 1) == 0) by (nonlinear_arith)
            requires source.exponent_field(bits) == 0;
    }
    assert(value.significand != 0);
    let ss = unpacked_scale(source);
    let ts = unpacked_scale(target);
    let sig = value.significand as int;
    let (significand, is_sticky) = rescaled(value.significand, source, target);
    let n = sig * pow2(ts);
    let d = pow2(ss) as int;
    lemma_pow2_pos(ss);
    lemma_pow2_pos(ts);
    assert(pow2(ss) <= sig < 2 * pow2(ss));
    if ts >= ss {
        let k = (ts - ss) as nat;
        lemma_pow2_adds(ss, k);
        lemma_pow2_pos(k);
        let w = pow2(k) as int;
        assert(sig * w < 2 * pow2(ss) * w) by (nonlinear_arith)
            requires sig < 2 * pow2(ss), w > 0;
        assert(pow2(ss) * w <= sig * w) by (nonlinear_arith)
            requires pow2(ss) <= sig, w > 0;
        assert(ss + k == ts);
        assert(pow2(ss) * w == pow2(ts));
        assert(pow2(ts) == implicit_bit(target));
        assert(pow2(ts) <= 0x80_0000_0000_0000);
        assert(2 * pow2(ss) * w == 2 * pow2(ts)) by (nonlinear_arith)
            requires pow2(ss) * w == pow2(ts);
        assert(sig * w < 0x1_0000_0000_0000_0000);
        assert(significand == sig * w);
        assert(n == significand * d) by (nonlinear_arith)
            requires n == sig * pow2(ts), pow2(ts) == pow2(ss) * w, significand == sig * w, d == pow2(ss);
        assert(!is_sticky);
        assert(exact_within(significand as int, is_sticky, n, d)) by (nonlinear_arith)
            requires n == significand * d, d > 0, !is_sticky;
        assert(significand >= implicit_bit(target));
    } else {
        let k = (ss - ts) as nat;
        lemma_pow2_adds(ts, k);
        lemma_pow2_pos(k);
        let w = pow2(k) as int;
        vstd::arithmetic::div_mod::lemma_fundamental_div_mod(sig, w);
        let q = sig / w;
        let rem = sig % w;
        assert(significand == q && is_sticky == (rem != 0));
        assert(d == pow2(ts) * w);
        assert(exact_within(q, is_sticky, n, d)) by (nonlinear_arith)
            requires
                sig == w * q + rem,
                0 <= rem < w,
                n == sig * pow2(ts),
                d == pow2(ts) * w,
                pow2(ts) > 0,
                is_sticky == (rem != 0);
        assert(q >= pow2(ts)) by (nonlinear_arith)
            requires sig == w * q + rem, 0 <= rem < w, pow2(ts) * w <= sig, w > 0;
    }
    let moved = Unpacked { significand, ..value };
    lemma_round_and_pack_is_correctly_rounded(moved, is_sticky, target, control, rounding, n, d);
}

/// Integer to FP is correctly rounded: with flush-to-zero off for the target
/// and any mode but round-to-odd, for an integer of a valid width whose
/// magnitude is not zero, the result is that integer correctly rounded in the
/// target format, with its sign. The value placed at the magnitude's leading
/// bit, in units of its significand, is the magnitude times two to the
/// target's scale over two to the leading bit's position; `correctly_packed`
/// says what rounding it gives in each range, once normalised and rescaled.
pub proof fn lemma_integer_conversion_is_correctly_rounded(
    value: u64,
    source: IntFormat,
    target: FpFormat,
    rounding: FpRounding,
    control: FpControl,
)
    requires
        integer_width_ok(source),
        !flushes(target, control),
        rounding != FpRounding::Odd,
        split_magnitude(value, source).0 != 0,
    ensures
        ({
            let (magnitude, is_negative) = split_magnitude(value, source);
            let scale = unpacked_scale(target);
            let leading = (bit_length(magnitude as nat) - 1) as nat;
            let (significand, is_sticky) = if leading <= scale {
                ((magnitude * pow2((scale - leading) as nat)) as u64, false)
            } else {
                let shift = (leading - scale) as nat;
                ((magnitude as nat / pow2(shift)) as u64, magnitude as nat % pow2(shift) != 0)
            };
            let placed = Unpacked { is_negative, exponent: leading as i32, significand };
            let n = magnitude * pow2(scale);
            let d = pow2(leading) as int;
            let (normal, sticky) = normalised(placed, is_sticky, target);
            let (n2, d2) = super::decompose::rescaled(n, d, placed, normal);
            &&& pow2(leading) <= magnitude < 2 * pow2(leading)
            &&& exact_near(normal.significand as int, sticky, n2, d2, normal_width(placed, normal, sticky))
            &&& correctly_packed(normal, sticky, target, rounding, integer_to_fp(value, source, target, rounding, control), n2, d2)
        }),
{
    lemma_implicit_bit(target);
    lemma2_to64();
    let (magnitude, is_negative) = split_magnitude(value, source);
    let m = magnitude as int;
    lemma_bit_length_bounds(magnitude as nat);
    let scale = unpacked_scale(target);
    let leading = (bit_length(magnitude as nat) - 1) as nat;
    lemma_pow2_unfold(leading + 1);
    assert(leading < 64) by {
        if leading >= 64 {
            vstd::arithmetic::power2::lemma2_to64_rest();
            if leading > 64 {
                lemma_pow2_strictly_increases(64, leading);
            }
        }
    }
    lemma_pow2_pos(scale);
    lemma_pow2_pos(leading);
    let n = m * pow2(scale);
    let d = pow2(leading) as int;
    let (significand, is_sticky) = if leading <= scale {
        ((magnitude * pow2((scale - leading) as nat)) as u64, false)
    } else {
        let shift = (leading - scale) as nat;
        ((magnitude as nat / pow2(shift)) as u64, magnitude as nat % pow2(shift) != 0)
    };
    assert(pow2(scale) == implicit_bit(target));
    assert(pow2(scale) <= 0x80_0000_0000_0000);
    if leading <= scale {
        let k = (scale - leading) as nat;
        lemma_pow2_adds(leading, k);
        lemma_pow2_pos(k);
        let w = pow2(k) as int;
        assert(leading + k == scale);
        assert(d * w == pow2(scale));
        assert(m * w < 2 * d * w) by (nonlinear_arith)
            requires m < 2 * d, w > 0;
        assert(d * w <= m * w) by (nonlinear_arith)
            requires d <= m, w > 0;
        assert(2 * d * w == 2 * pow2(scale)) by (nonlinear_arith)
            requires d * w == pow2(scale);
        assert(significand == m * w);
        assert(n == significand * d) by (nonlinear_arith)
            requires n == m * pow2(scale), pow2(scale) == d * w, significand == m * w;
        assert(exact_within(significand as int, is_sticky, n, d)) by (nonlinear_arith)
            requires n == significand * d, d > 0, !is_sticky;
    } else {
        let k = (leading - scale) as nat;
        lemma_pow2_adds(scale, k);
        lemma_pow2_pos(k);
        let w = pow2(k) as int;
        assert(scale + k == leading);
        vstd::arithmetic::div_mod::lemma_fundamental_div_mod(m, w);
        let q = m / w;
        let rem = m % w;
        assert(significand == q && is_sticky == (rem != 0));
        assert(d == pow2(scale) * w);
        assert(exact_within(q, is_sticky, n, d)) by (nonlinear_arith)
            requires
                m == w * q + rem,
                0 <= rem < w,
                n == m * pow2(scale),
                d == pow2(scale) * w,
                pow2(scale) > 0,
                is_sticky == (rem != 0);
        assert(q >= pow2(scale)) by (nonlinear_arith)
            requires m == w * q + rem, 0 <= rem < w, pow2(scale) * w <= m, w > 0;
    }
    let placed = Unpacked { is_negative, exponent: leading as i32, significand };
    lemma_round_and_pack_is_correctly_rounded(placed, is_sticky, target, control, rounding, n, d);
}

/// Whether `result` is `n / d` (for `d > 0`) correctly rounded to an integer
/// in `rounding`, for a value of the given sign: the integer below it, or the
/// one above it when it is not an integer, chosen by the mode: toward zero,
/// by sign for the directed modes, the nearer one (ties to even, or away
/// from zero) for the nearest modes, and the odd one for round-to-odd.
pub open spec fn rounded_to_integer(result: int, n: int, d: int, rounding: FpRounding, is_negative: bool) -> bool {
    let below = n / d;
    let exact = n % d == 0;
    let up = if exact { below } else { below + 1 };
    let to_below = 2 * (n - below * d);
    let to_above = 2 * ((below + 1) * d - n);
    match rounding {
        FpRounding::Zero => result == below,
        FpRounding::Plus => result == (if is_negative { below } else { up }),
        FpRounding::Minus => result == (if is_negative { up } else { below }),
        FpRounding::Nearest => if to_below < to_above {
            result == below
        } else if to_above < to_below {
            result == below + 1
        } else {
            (result == below || result == below + 1) && result % 2 == 0
        },
        FpRounding::NearestAway => result == (if to_below < to_above { below } else { below + 1 }),
        FpRounding::Odd => result == (if exact || below % 2 == 1 { below } else { below + 1 }),
    }
}

/// Rounding a truncated quotient up by `remainder_rounds_away` is correct
/// rounding to an integer.
proof fn lemma_remainder_rounding_is_correct(n: int, down: nat, rounding: FpRounding, is_negative: bool)
    requires
        0 < n < 0x1_0000_0000_0000_0000,
        1 <= down < 64,
    ensures
        ({
            let d = pow2(down) as int;
            let truncated = (n / d) as u64;
            let remainder = (n % d) as u64;
            let is_away = remainder != 0 && remainder_rounds_away(truncated, remainder, down as u32, rounding, is_negative);
            &&& truncated == n / d
            &&& remainder == n % d
            &&& rounded_to_integer(truncated + if is_away { 1int } else { 0int }, n, d, rounding, is_negative)
        }),
{
    lemma_pow2_pos(down);
    lemma_pow2_unfold(down);
    let d = pow2(down) as int;
    let half = pow2((down - 1) as nat) as int;
    assert(d == 2 * half);
    vstd::arithmetic::div_mod::lemma_fundamental_div_mod(n, d);
    vstd::arithmetic::div_mod::lemma_div_is_ordered_by_denominator(n, 1, d);
    assert(n / d <= n);
    let below = n / d;
    let rem = n % d;
    assert(n - below * d == rem) by (nonlinear_arith)
        requires n == d * below + rem;
    assert((below + 1) * d - n == d - rem) by (nonlinear_arith)
        requires n == d * below + rem;
    assert(((down as u32) - 1) as nat == (down - 1) as nat);
}

/// Rounding to an integer is correct rounding: for a non-zero unpacked value
/// with a fractional part (its exponent below the scale), the magnitude that
/// FP to integer conversion produces is the value's magnitude correctly
/// rounded to an integer, and it reports inexact exactly when the magnitude
/// was not an integer.
#[verifier::spinoff_prover]
#[verifier::rlimit(40)]
pub proof fn lemma_magnitude_rounding_is_correct(value: Unpacked, scale: u32, rounding: FpRounding)
    requires
        0 < value.significand < 0x100_0000_0000_0000,
        rounding != FpRounding::Odd,
        value.exponent < scale,
        scale - value.exponent < 0x1_0000_0000,
    ensures
        ({
            let d = pow2((scale - value.exponent) as nat) as int;
            let (magnitude, is_inexact) = magnitude_rounded(value, scale, rounding);
            &&& rounded_to_integer(magnitude as int, value.significand as int, d, rounding, value.is_negative)
            &&& is_inexact == (value.significand as int % d != 0)
        }),
{
    let down = (scale - value.exponent) as nat;
    let n = value.significand as int;
    lemma_pow2_pos(down);
    let d = pow2(down) as int;
    let (magnitude, is_inexact) = magnitude_rounded(value, scale, rounding);
    if down >= 64 {
        lemma2_to64();
        vstd::arithmetic::power2::lemma2_to64_rest();
        if down > 64 {
            lemma_pow2_strictly_increases(64, down);
        }
        assert(2 * n < d);
        vstd::arithmetic::div_mod::lemma_small_mod(n as nat, d as nat);
        vstd::arithmetic::div_mod::lemma_basic_div(n, d);
        assert(n / d == 0 && n % d == n);
        assert(is_inexact);
        assert(magnitude == (if directed_away(rounding, value.is_negative) { 1int } else { 0int }));
    } else {
        assert((-(value.exponent - scale)) as u32 == down);
        lemma_remainder_rounding_is_correct(n, down, rounding, value.is_negative);
        vstd::arithmetic::div_mod::lemma_div_is_ordered_by_denominator(n, 1, d);
        assert(n / d < 0x1_0000_0000_0000_0000);
        let truncated = (n / d) as u64;
        let remainder = (n % d) as u64;
        let is_away = remainder != 0 && remainder_rounds_away(truncated, remainder, down as u32, rounding, value.is_negative);
        if remainder == 0 {
            assert(magnitude == truncated);
            assert(!is_inexact);
        } else {
            assert(magnitude == truncated + if is_away { 1int } else { 0int });
            assert(is_inexact);
        }
    }
}

/// Rounding to an integral value is correct rounding: for a non-zero
/// unpacked value with a fractional part, round-to-integral keeps the value's
/// exponent and makes its significand the correctly rounded integer raised
/// back by the units place, or nothing (a zero) when that integer is zero.
#[verifier::spinoff_prover]
#[verifier::rlimit(40)]
pub proof fn lemma_integral_rounding_is_correct(value: Unpacked, scale: u32, rounding: FpRounding)
    requires
        value.significand != 0,
        rounding != FpRounding::Odd,
        value.exponent < scale,
        scale - value.exponent < 0x1_0000_0000,
        value.significand < 0x100_0000_0000_0000,
        scale <= 55,
    ensures
        ({
            let shift = (scale - value.exponent) as nat;
            let d = pow2(shift) as int;
            match integer_rounded(value, scale, rounding) {
                None => rounded_to_integer(0, value.significand as int, d, rounding, value.is_negative),
                Some(integral) => {
                    &&& integral.is_negative == value.is_negative
                    &&& integral.significand > 0
                    &&& if shift >= 64 {
                        &&& integral.exponent == 0
                        &&& rounded_to_integer(integral.significand as int / pow2(scale as nat) as int, value.significand as int, d, rounding, value.is_negative)
                        &&& integral.significand == pow2(scale as nat)
                    } else {
                        &&& integral.exponent == value.exponent
                        &&& integral.significand as int % d == 0
                        &&& rounded_to_integer(integral.significand as int / d, value.significand as int, d, rounding, value.is_negative)
                    }
                },
            }
        }),
{
    let shift = (scale - value.exponent) as nat;
    let n = value.significand as int;
    lemma_pow2_pos(shift);
    let d = pow2(shift) as int;
    if shift >= 64 {
        lemma2_to64();
        vstd::arithmetic::power2::lemma2_to64_rest();
        if shift > 64 {
            lemma_pow2_strictly_increases(64, shift);
        }
        assert(n < d);
        vstd::arithmetic::div_mod::lemma_small_mod(n as nat, d as nat);
        vstd::arithmetic::div_mod::lemma_basic_div(n, d);
        lemma_pow2_pos(scale as nat);
        if scale < 55 {
            lemma_pow2_strictly_increases(scale as nat, 55);
        }
        vstd::arithmetic::div_mod::lemma_div_by_self(pow2(scale as nat) as int);
    } else {
        assert((scale - value.exponent) as u32 as nat == shift);
        lemma_remainder_rounding_is_correct(n, shift, rounding, value.is_negative);
        let truncated = (n / d) as u64;
        let remainder = (n % d) as u64;
        let is_away = remainder != 0 && remainder_rounds_away(truncated, remainder, shift as u32, rounding, value.is_negative);
        let integral = truncated + if is_away { 1int } else { 0int };
        if integral != 0 {
            vstd::arithmetic::div_mod::lemma_fundamental_div_mod(n, d);
            assert(integral * d <= n + d) by (nonlinear_arith)
                requires integral <= n / d + 1, n == d * (n / d) + n % d, n % d >= 0, d > 0;
            assert(n + d <= 0x100_0000_0000_0000 + 0x8000_0000_0000_0000) by {
                lemma2_to64();
                vstd::arithmetic::power2::lemma2_to64_rest();
                if shift < 63 {
                    lemma_pow2_strictly_increases(shift, 63);
                }
            }
            assert(integral * d > 0) by (nonlinear_arith)
                requires integral > 0, d > 0;
            vstd::arithmetic::div_mod::lemma_mod_multiples_basic(integral, d);
            vstd::arithmetic::div_mod::lemma_div_multiples_vanish(integral, d);
        }
    }
}

/// The integer a value of `target`'s width holds: the bits as they stand
/// for an unsigned format, two's complement for a signed one.
pub open spec fn integer_read(bits: u64, target: IntFormat) -> int {
    if target.is_signed && bits as int >= pow2((target.bits - 1) as nat) {
        bits - pow2(target.bits as nat)
    } else {
        bits as int
    }
}

/// The least and greatest integers `target` holds.
pub open spec fn integer_range(target: IntFormat) -> (int, int) {
    if target.is_signed {
        (-pow2((target.bits - 1) as nat), pow2((target.bits - 1) as nat) - 1)
    } else {
        (0, pow2(target.bits as nat) - 1)
    }
}

/// Encoding a rounded integer saturates: for a rounded magnitude and sign,
/// the result fits the target's width; a value the target holds is encoded
/// as exactly that integer, raising only inexact when rounding lost
/// something; a value above the range gives the greatest integer and one
/// below it the least, both raising invalid. (A negative magnitude of zero
/// for an unsigned target is refused as invalid, and is left out.)
pub proof fn lemma_encoding_saturates(magnitude: u128, is_negative: bool, is_inexact: bool, target: IntFormat)
    requires
        integer_width_ok(target),
        is_negative && !target.is_signed ==> magnitude > 0,
    ensures
        ({
            let r = encoded(magnitude, is_negative, is_inexact, target);
            let value: int = if is_negative { -magnitude } else { magnitude as int };
            let (least, greatest) = integer_range(target);
            &&& (r.bits as int) < pow2(target.bits as nat)
            &&& least <= value <= greatest ==> integer_read(r.bits, target) == value
                && r.raised == raised(if is_inexact { FPSR_IXC } else { 0 })
            &&& value > greatest ==> integer_read(r.bits, target) == greatest && r.raised == raised(FPSR_IOC)
            &&& value < least ==> integer_read(r.bits, target) == least && r.raised == raised(FPSR_IOC)
        }),
{
    let b = target.bits as nat;
    lemma2_to64();
    vstd::arithmetic::power2::lemma2_to64_rest();
    lemma_pow2_pos(b);
    lemma_pow2_pos((b - 1) as nat);
    lemma_pow2_unfold(b);
    let full = pow2(b) as int;
    let half = pow2((b - 1) as nat) as int;
    assert(full == 2 * half);
    assert(full <= 0x1_0000_0000_0000_0000) by {
        if b < 64 {
            lemma_pow2_strictly_increases(b, 64);
        }
    }
    // 2^64 is a multiple of 2^b.
    lemma_pow2_adds(b, (64 - b) as nat);
    lemma_pow2_pos((64 - b) as nat);
    let multiple = pow2((64 - b) as nat) as int;
    assert(full * multiple == 0x1_0000_0000_0000_0000);
    let r = encoded(magnitude, is_negative, is_inexact, target);
    let value: int = if is_negative { -magnitude } else { magnitude as int };
    let limit = limit_of(is_negative, target) as int;
    assert(limit == (if !target.is_signed { full - 1 } else if is_negative { half } else { half - 1 }));
    if !target.is_signed && is_negative {
        assert(value < 0);
    } else if magnitude > limit {
        // Saturated.
        let extreme: u64 = if !target.is_signed {
            if is_negative { 0 } else { u64::MAX }
        } else if is_negative {
            half as u64
        } else {
            (half - 1) as u64
        };
        if b < 64 {
            if !target.is_signed {
                assert(u64::MAX as int == full * multiple - 1);
                assert((u64::MAX as nat) % (full as nat) == full - 1) by (nonlinear_arith)
                    requires u64::MAX as int == full * multiple - 1, full > 0, multiple > 0;
            } else {
                vstd::arithmetic::div_mod::lemma_small_mod(extreme as nat, full as nat);
            }
        }
    } else {
        let word: u64 = if is_negative { negated(magnitude as u64) } else { magnitude as u64 };
        if is_negative && magnitude > 0 {
            assert(word as int == 0x1_0000_0000_0000_0000 - magnitude);
            if b < 64 {
                assert((word as nat) % (full as nat) == full - magnitude) by (nonlinear_arith)
                    requires word as int == full * multiple - magnitude, 0 < magnitude <= full, full > 0, multiple > 0;
            }
        } else {
            if b < 64 {
                vstd::arithmetic::div_mod::lemma_small_mod(word as nat, full as nat);
            }
        }
    }
}

} // verus!
