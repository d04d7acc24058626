//! Add, subtract, multiply, divide and square root.
//!
//! Each operation follows the same shape: flush inputs if FPCR asks, let NaN
//! propagation and the infinity/zero special cases answer if they can, and
//! otherwise compute an exact or sticky-extended significand and hand it to
//! [`round_and_pack`].
use vstd::prelude::*;
use vstd::arithmetic::power2::{pow2, lemma2_to64, lemma_pow2_pos};
use super::decompose::{
    implicit_bit, lemma_implicit_bit, power_of_two, round_and_pack, rounded_and_packed, unpack, unpacked_of,
    raised, flushes, RoundingContext, Unpacked, correctly_packed, exact_within, lemma_round_and_pack_is_correctly_rounded,
    lemma_unpacked_shape, normalised, rescaled, exact_near, normal_width,
};
use super::nan::{self, propagated};
use crate::fp::control::{FpControl, FpExceptions, FPSR_DZC, FPSR_IDC, FPSR_IOC};
use crate::fp::operand::{FpFormat, FpResult, FpRounding};

verus! {

/// Everything an operation needs besides its operands.
#[derive(Debug, Clone, Copy, PartialEq, Eq, Structural)]
pub struct Context {
    /// Format of every operand and the result.
    pub format: FpFormat,
    /// Rounding mode, already resolved from the encoding or FPCR.
    pub rounding: FpRounding,
    /// FPCR, for flush-to-zero and default NaN.
    pub control: FpControl,
}

impl Context {
    /// The rounding context for a result with the given sticky bit.
    pub open spec fn rounding_with(self, is_sticky: bool) -> RoundingContext {
        RoundingContext { rounding: self.rounding, is_sticky, control: self.control }
    }

    /// The rounding context for a result with the given sticky bit.
    pub fn rounding_context(self, is_sticky: bool) -> (r: RoundingContext)
        ensures
            r == self.rounding_with(is_sticky),
    {
        RoundingContext { rounding: self.rounding, is_sticky, control: self.control }
    }

    /// Rounds and packs a computed value.
    pub fn pack(self, value: Unpacked, is_sticky: bool) -> (r: FpResult)
        requires
            i32::MIN + 64 <= value.exponent <= i32::MAX - 64,
        ensures
            r == rounded_and_packed(value, self.format, self.rounding_with(is_sticky)),
    {
        round_and_pack(value, self.format, self.rounding_context(is_sticky))
    }
}

/// An input after flush-to-zero: a subnormal becomes a zero of its sign and
/// raises input-denormal when FPCR flushes the format; anything else passes.
pub open spec fn input_flushed(bits: u64, context: Context) -> (u64, FpExceptions) {
    let format = context.format;
    if !flushes(format, context.control) || !(format.exponent_field(bits) == 0 && format.fraction_field(bits) != 0) {
        (bits, raised(0))
    } else {
        (format.zero((bits / format.sign_weight()) % 2 == 1), raised(FPSR_IDC))
    }
}

/// Applies `FPCR.FZ` (or `FZ16`) to an input.
pub fn flush_input(bits: u64, context: Context) -> (r: (u64, FpExceptions))
    ensures
        r == input_flushed(bits, context),
{
    let is_flushing = match context.format {
        FpFormat::Half => context.control.is_flush_to_zero_fp16,
        FpFormat::Single | FpFormat::Double => context.control.is_flush_to_zero,
    };
    if !is_flushing || !context.format.is_subnormal(bits) {
        return (bits, FpExceptions::none());
    }
    (context.format.zero(context.format.is_negative(bits)), FpExceptions::input_denormal())
}

/// Two inputs after flush-to-zero, with the union of what flushing raised.
pub open spec fn pair_flushed(lhs: u64, rhs: u64, context: Context) -> (u64, u64, FpExceptions) {
    let (left, from_left) = input_flushed(lhs, context);
    let (right, from_right) = input_flushed(rhs, context);
    (left, right, raised(from_left.flags() | from_right.flags()))
}

/// Flushes both inputs of a binary operation.
pub fn flush_pair(lhs: u64, rhs: u64, context: Context) -> (r: (u64, u64, FpExceptions))
    ensures
        r == pair_flushed(lhs, rhs, context),
{
    let (lhs, from_lhs) = flush_input(lhs, context);
    let (rhs, from_rhs) = flush_input(rhs, context);
    (lhs, rhs, from_lhs.union(from_rhs))
}

/// `result` with `extra` added to what it raised.
pub open spec fn flagged(result: FpResult, extra: FpExceptions) -> FpResult {
    FpResult { bits: result.bits, raised: raised(result.raised.flags() | extra.flags()) }
}

/// Adds flags raised before the operation proper, such as input-denormal.
pub fn with_flags(result: FpResult, extra: FpExceptions) -> (r: FpResult)
    ensures
        r == flagged(result, extra),
{
    FpResult::raising(result.bits, result.raised.union(extra))
}

/// An unpacked operand as the arithmetic receives it: a zero, or a
/// normalised significand at an exponent [`unpack`] can produce.
pub open spec fn operand_shape(value: Unpacked, format: FpFormat) -> bool {
    &&& value.significand == 0 || implicit_bit(format) <= value.significand < 2 * implicit_bit(format)
    &&& -1100 < value.exponent < 1100
}

/// `bits` with its sign bit flipped when `is_negated`.
pub open spec fn negated_if(bits: u64, is_negated: bool, format: FpFormat) -> u64 {
    if is_negated { bits ^ format.sign_weight() } else { bits }
}

/// The infinity cases of a sum: none when neither operand is infinite; two
/// infinities of opposite sign are invalid; otherwise the infinity.
pub open spec fn infinite_sum(lhs: u64, rhs: u64, context: Context) -> Option<FpResult> {
    let format = context.format;
    let is_lhs_infinite = format.exponent_field(lhs) == format.max_exponent() && format.fraction_field(lhs) == 0;
    let is_rhs_infinite = format.exponent_field(rhs) == format.max_exponent() && format.fraction_field(rhs) == 0;
    if !is_lhs_infinite && !is_rhs_infinite {
        None
    } else if is_lhs_infinite && is_rhs_infinite {
        if ((lhs / format.sign_weight()) % 2 == 1) != ((rhs / format.sign_weight()) % 2 == 1) {
            Some(FpResult { bits: format.default_nan(), raised: nan::invalid_if(true) })
        } else {
            Some(FpResult { bits: lhs, raised: raised(0) })
        }
    } else {
        Some(FpResult { bits: if is_lhs_infinite { lhs } else { rhs }, raised: raised(0) })
    }
}

/// The infinity cases of a sum.
pub fn add_infinities(lhs: u64, rhs: u64, context: Context) -> (r: Option<FpResult>)
    ensures
        r == infinite_sum(lhs, rhs, context),
{
    let format = context.format;
    let is_lhs_infinite = format.is_infinite(lhs);
    let is_rhs_infinite = format.is_infinite(rhs);
    if !is_lhs_infinite && !is_rhs_infinite {
        return None;
    }

    if is_lhs_infinite && is_rhs_infinite {
        if format.is_negative(lhs) != format.is_negative(rhs) {
            return Some(nan::invalid_operation(format));
        }
        return Some(FpResult::exact(lhs));
    }
    Some(FpResult::exact(if is_lhs_infinite { lhs } else { rhs }))
}

/// Whether `lhs` has at least the magnitude of `rhs`, comparing exponents
/// first and significands second.
pub open spec fn at_least(lhs: Unpacked, rhs: Unpacked) -> bool {
    lhs.exponent > rhs.exponent || (lhs.exponent == rhs.exponent && lhs.significand >= rhs.significand)
}

/// Whether `lhs` has the larger magnitude.
pub fn is_larger(lhs: Unpacked, rhs: Unpacked) -> (r: bool)
    ensures
        r == at_least(lhs, rhs),
{
    lhs.exponent > rhs.exponent || (lhs.exponent == rhs.exponent && lhs.significand >= rhs.significand)
}

/// A significand shifted right by `shift`, and whether a set bit fell off.
pub open spec fn shifted_out(significand: u64, shift: u32) -> (u64, bool) {
    if shift >= 64 {
        (0, significand != 0)
    } else {
        ((significand as nat / pow2(shift as nat)) as u64, significand as nat % pow2(shift as nat) != 0)
    }
}

/// Shifts a significand right, folding what falls off into a sticky flag.
pub fn align(significand: u64, shift: u32) -> (r: (u64, bool))
    ensures
        r == shifted_out(significand, shift),
{
    if shift >= 64 {
        return (0, significand != 0);
    }
    let weight = power_of_two(shift);
    proof { lemma_pow2_pos(shift as nat); }
    (significand / weight, significand % weight != 0)
}

/// The sign of an exact zero sum of operands of opposite signs: negative only
/// when rounding toward minus infinity.
pub open spec fn cancelled_sign(context: Context) -> bool {
    context.rounding == FpRounding::Minus
}

/// What is left of `larger` after the aligned smaller operand is taken from
/// it. A set sticky bit means the true smaller operand was a little larger
/// than `aligned`, so one more unit is borrowed and the result stays sticky.
pub open spec fn difference(larger: Unpacked, aligned: u64, is_sticky: bool, context: Context) -> (Unpacked, bool) {
    let significand = if is_sticky { larger.significand - aligned - 1 } else { larger.significand - aligned };
    if significand == 0 && !is_sticky {
        (Unpacked { is_negative: cancelled_sign(context), exponent: 0, significand: 0 }, false)
    } else {
        (Unpacked { significand: significand as u64, ..larger }, is_sticky)
    }
}

/// Subtracts an aligned significand from the larger operand.
pub fn subtract_aligned(larger: Unpacked, aligned: u64, is_sticky: bool, context: Context) -> (r: (Unpacked, bool))
    requires
        (if is_sticky { aligned + 1 } else { aligned as int }) <= larger.significand,
    ensures
        r == difference(larger, aligned, is_sticky, context),
{
    let (significand, is_sticky) = if is_sticky {
        (larger.significand - aligned - 1, true)
    } else {
        (larger.significand - aligned, false)
    };

    if significand == 0 && !is_sticky {
        let is_negative = match context.rounding {
            FpRounding::Minus => true,
            _ => false,
        };
        return (Unpacked::zero(is_negative), false);
    }
    (Unpacked { significand, ..larger }, is_sticky)
}

/// The exact-or-sticky sum of two unpacked operands, before rounding: two
/// zeroes give a zero whose sign is theirs if they agree and is otherwise set
/// only when rounding toward minus infinity; a zero gives the other operand;
/// otherwise the smaller operand is aligned to the larger's exponent and
/// added or subtracted by sign.
pub open spec fn sum(lhs: Unpacked, rhs: Unpacked, context: Context) -> (Unpacked, bool) {
    if lhs.significand == 0 && rhs.significand == 0 {
        let is_negative = if lhs.is_negative == rhs.is_negative { lhs.is_negative } else { cancelled_sign(context) };
        (Unpacked { is_negative, exponent: 0, significand: 0 }, false)
    } else if lhs.significand == 0 {
        (rhs, false)
    } else if rhs.significand == 0 {
        (lhs, false)
    } else {
        let (larger, smaller) = if at_least(lhs, rhs) { (lhs, rhs) } else { (rhs, lhs) };
        let (aligned, is_sticky) = shifted_out(smaller.significand, (larger.exponent - smaller.exponent) as u32);
        if larger.is_negative == smaller.is_negative {
            (Unpacked { significand: (larger.significand + aligned) as u64, ..larger }, is_sticky)
        } else {
            difference(larger, aligned, is_sticky, context)
        }
    }
}

/// Adds two finite unpacked values, returning the unrounded sum and its
/// sticky bit.
pub fn add_finite(lhs: Unpacked, rhs: Unpacked, context: Context) -> (r: (Unpacked, bool))
    requires
        operand_shape(lhs, context.format),
        operand_shape(rhs, context.format),
    ensures
        r == sum(lhs, rhs, context),
        -1200 < r.0.exponent < 1200,
{
    if lhs.is_zero() && rhs.is_zero() {
        let is_negative = if lhs.is_negative == rhs.is_negative {
            lhs.is_negative
        } else {
            match context.rounding {
                FpRounding::Minus => true,
                _ => false,
            }
        };
        return (Unpacked::zero(is_negative), false);
    }
    if lhs.is_zero() {
        return (rhs, false);
    }
    if rhs.is_zero() {
        return (lhs, false);
    }

    let (larger, smaller) = if is_larger(lhs, rhs) {
        (lhs, rhs)
    } else {
        (rhs, lhs)
    };
    let shift = (larger.exponent - smaller.exponent) as u32;
    let (aligned, is_sticky) = align(smaller.significand, shift);
    proof {
        lemma_implicit_bit(context.format);
        lemma2_to64();
        if shift >= 1 && shift < 64 {
            vstd::arithmetic::power2::lemma_pow2_adds(1, (shift - 1) as nat);
            lemma_pow2_pos((shift - 1) as nat);
            assert((smaller.significand as nat) / pow2(shift as nat) <= (smaller.significand as nat) / 2) by {
                vstd::arithmetic::div_mod::lemma_div_denominator(smaller.significand as int, 2, pow2((shift - 1) as nat) as int);
                vstd::arithmetic::div_mod::lemma_div_is_ordered_by_denominator(smaller.significand as int, 2, pow2(shift as nat) as int);
            }
        }
    }

    if larger.is_negative == smaller.is_negative {
        return (Unpacked { significand: larger.significand + aligned, ..larger }, is_sticky);
    }
    subtract_aligned(larger, aligned, is_sticky, context)
}

/// What [`add`] returns: inputs flushed, the subtrahend's sign flipped for a
/// subtraction, then NaN propagation, the infinity cases, or the rounded
/// finite sum, with any input-denormal flag added.
pub open spec fn added(lhs: u64, rhs: u64, is_subtracting: bool, context: Context) -> FpResult {
    let format = context.format;
    let (left, right, denormal) = pair_flushed(lhs, rhs, context);
    let right = negated_if(right, is_subtracting, format);
    if propagated(seq![left, right], format, context.control) is Some {
        flagged(propagated(seq![left, right], format, context.control)->0, denormal)
    } else if infinite_sum(left, right, context) is Some {
        flagged(infinite_sum(left, right, context)->0, denormal)
    } else {
        let (value, is_sticky) = sum(unpacked_of(left, format), unpacked_of(right, format), context);
        flagged(rounded_and_packed(value, format, context.rounding_with(is_sticky)), denormal)
    }
}

/// `FADD` and `FSUB`.
pub fn add(lhs: u64, rhs: u64, is_subtracting: bool, context: Context) -> (r: FpResult)
    ensures
        r == added(lhs, rhs, is_subtracting, context),
{
    let (lhs, rhs, denormal) = flush_pair(lhs, rhs, context);
    let format = context.format;
    let rhs = if is_subtracting { rhs ^ format.zero(true) } else { rhs };

    let operands = [lhs, rhs];
    assert(operands@ =~= seq![lhs, rhs]);
    match nan::propagate(&operands, format, context.control) {
        Some(result) => return with_flags(result, denormal),
        None => {},
    }
    match add_infinities(lhs, rhs, context) {
        Some(result) => return with_flags(result, denormal),
        None => {},
    }

    let (value, is_sticky) = add_finite(unpack(lhs, format), unpack(rhs, format), context);
    with_flags(context.pack(value, is_sticky), denormal)
}

/// The infinity and zero cases of a product: infinity times zero is invalid;
/// an infinite factor gives an infinity, and a zero factor a zero, of the
/// product's sign.
pub open spec fn special_product(lhs: u64, rhs: u64, is_negative: bool, context: Context) -> Option<FpResult> {
    let format = context.format;
    let is_lhs_infinite = format.exponent_field(lhs) == format.max_exponent() && format.fraction_field(lhs) == 0;
    let is_rhs_infinite = format.exponent_field(rhs) == format.max_exponent() && format.fraction_field(rhs) == 0;
    let is_lhs_zero = lhs == 0 || lhs == format.sign_weight();
    let is_rhs_zero = rhs == 0 || rhs == format.sign_weight();
    if (is_lhs_infinite && is_rhs_zero) || (is_lhs_zero && is_rhs_infinite) {
        Some(FpResult { bits: format.default_nan(), raised: nan::invalid_if(true) })
    } else if is_lhs_infinite || is_rhs_infinite {
        Some(FpResult { bits: format.signed_infinity(is_negative), raised: raised(0) })
    } else if is_lhs_zero || is_rhs_zero {
        Some(FpResult { bits: format.zero(is_negative), raised: raised(0) })
    } else {
        None
    }
}

/// The infinity and zero cases of a product.
pub fn multiply_specials(lhs: u64, rhs: u64, is_negative: bool, context: Context) -> (r: Option<FpResult>)
    ensures
        r == special_product(lhs, rhs, is_negative, context),
{
    let format = context.format;
    let (is_lhs_infinite, is_rhs_infinite) = (format.is_infinite(lhs), format.is_infinite(rhs));
    let (is_lhs_zero, is_rhs_zero) = (format.is_zero(lhs), format.is_zero(rhs));

    if (is_lhs_infinite && is_rhs_zero) || (is_lhs_zero && is_rhs_infinite) {
        return Some(nan::invalid_operation(format));
    }
    if is_lhs_infinite || is_rhs_infinite {
        return Some(FpResult::exact(format.signed_infinity(is_negative)));
    }
    if is_lhs_zero || is_rhs_zero {
        return Some(FpResult::exact(format.zero(is_negative)));
    }
    None
}

/// How far a product of two unpacked significands sits above one unpacked
/// significand's scale: `mantissa_bits + GUARD_BITS`.
#[verifier::allow_in_spec]
pub fn significand_scale(format: FpFormat) -> (r: u32)
    returns
        (format.mantissa_bits() + 3) as u32,
{
    format.mantissa_bits() + 3
}

/// A wide value shifted right by `shift`, and whether a set bit fell off.
pub open spec fn narrowed(product: u128, shift: u32) -> (u64, bool) {
    ((product as nat / pow2(shift as nat)) as u64, product as nat % pow2(shift as nat) != 0)
}

/// Shifts a 128-bit product back down to significand scale.
pub fn narrow(product: u128, shift: u32) -> (r: (u64, bool))
    requires
        shift < 64,
    ensures
        r == narrowed(product, shift),
{
    let weight = power_of_two(shift) as u128;
    proof { lemma_pow2_pos(shift as nat); }
    ((product / weight) as u64, product % weight != 0)
}

/// The sign of a product or quotient: set when exactly one operand is
/// negative.
pub open spec fn sign_product(lhs: u64, rhs: u64, format: FpFormat) -> bool {
    ((lhs / format.sign_weight()) % 2 == 1) != ((rhs / format.sign_weight()) % 2 == 1)
}

/// What [`multiply`] returns: inputs flushed, then NaN propagation, the
/// special cases, or the product of the significands narrowed to one scale,
/// at the sum of the exponents, rounded; with any input-denormal flag added.
pub open spec fn multiplied(lhs: u64, rhs: u64, context: Context) -> FpResult {
    let format = context.format;
    let (left, right, denormal) = pair_flushed(lhs, rhs, context);
    let is_negative = sign_product(left, right, format);
    if propagated(seq![left, right], format, context.control) is Some {
        flagged(propagated(seq![left, right], format, context.control)->0, denormal)
    } else if special_product(left, right, is_negative, context) is Some {
        flagged(special_product(left, right, is_negative, context)->0, denormal)
    } else {
        let (l, r) = (unpacked_of(left, format), unpacked_of(right, format));
        let product = (l.significand * r.significand) as u128;
        let (significand, is_sticky) = narrowed(product, significand_scale(format));
        let value = Unpacked { is_negative, exponent: (l.exponent + r.exponent) as i32, significand };
        flagged(rounded_and_packed(value, format, context.rounding_with(is_sticky)), denormal)
    }
}

/// `FMUL`.
pub fn multiply(lhs: u64, rhs: u64, context: Context) -> (r: FpResult)
    ensures
        r == multiplied(lhs, rhs, context),
{
    let (lhs, rhs, denormal) = flush_pair(lhs, rhs, context);
    let format = context.format;

    let operands = [lhs, rhs];
    assert(operands@ =~= seq![lhs, rhs]);
    match nan::propagate(&operands, format, context.control) {
        Some(result) => return with_flags(result, denormal),
        None => {},
    }
    let is_negative = format.is_negative(lhs) != format.is_negative(rhs);
    match multiply_specials(lhs, rhs, is_negative, context) {
        Some(result) => return with_flags(result, denormal),
        None => {},
    }

    let (left, right) = (unpack(lhs, format), unpack(rhs, format));
    proof {
        lemma_implicit_bit(format);
        assert(left.significand * right.significand <= 0x100_0000_0000_0000 * 0x100_0000_0000_0000) by (nonlinear_arith)
            requires left.significand <= 0x100_0000_0000_0000, right.significand <= 0x100_0000_0000_0000;
    }
    let product = (left.significand as u128) * (right.significand as u128);
    let (significand, is_sticky) = narrow(product, significand_scale(format));

    let value = Unpacked {
        is_negative,
        exponent: left.exponent + right.exponent,
        significand,
    };
    with_flags(context.pack(value, is_sticky), denormal)
}

/// The infinity and zero cases of a quotient: two infinities or two zeroes
/// are invalid; an infinite dividend gives an infinity and an infinite
/// divisor a zero; a zero divisor gives an infinity raising divide-by-zero;
/// a zero dividend gives a zero.
pub open spec fn special_quotient(lhs: u64, rhs: u64, is_negative: bool, context: Context) -> Option<FpResult> {
    let format = context.format;
    let is_lhs_infinite = format.exponent_field(lhs) == format.max_exponent() && format.fraction_field(lhs) == 0;
    let is_rhs_infinite = format.exponent_field(rhs) == format.max_exponent() && format.fraction_field(rhs) == 0;
    let is_lhs_zero = lhs == 0 || lhs == format.sign_weight();
    let is_rhs_zero = rhs == 0 || rhs == format.sign_weight();
    if (is_lhs_infinite && is_rhs_infinite) || (is_lhs_zero && is_rhs_zero) {
        Some(FpResult { bits: format.default_nan(), raised: nan::invalid_if(true) })
    } else if is_lhs_infinite {
        Some(FpResult { bits: format.signed_infinity(is_negative), raised: raised(0) })
    } else if is_rhs_infinite {
        Some(FpResult { bits: format.zero(is_negative), raised: raised(0) })
    } else if is_rhs_zero {
        Some(FpResult { bits: format.signed_infinity(is_negative), raised: raised(FPSR_DZC) })
    } else if is_lhs_zero {
        Some(FpResult { bits: format.zero(is_negative), raised: raised(0) })
    } else {
        None
    }
}

/// The infinity and zero cases of a quotient.
pub fn divide_specials(lhs: u64, rhs: u64, is_negative: bool, context: Context) -> (r: Option<FpResult>)
    ensures
        r == special_quotient(lhs, rhs, is_negative, context),
{
    let format = context.format;
    let (is_lhs_infinite, is_rhs_infinite) = (format.is_infinite(lhs), format.is_infinite(rhs));
    let (is_lhs_zero, is_rhs_zero) = (format.is_zero(lhs), format.is_zero(rhs));

    if (is_lhs_infinite && is_rhs_infinite) || (is_lhs_zero && is_rhs_zero) {
        return Some(nan::invalid_operation(format));
    }
    if is_lhs_infinite {
        return Some(FpResult::exact(format.signed_infinity(is_negative)));
    }
    if is_rhs_infinite {
        return Some(FpResult::exact(format.zero(is_negative)));
    }
    if is_rhs_zero {
        return Some(FpResult::raising(format.signed_infinity(is_negative), FpExceptions::divide_by_zero()));
    }
    if is_lhs_zero {
        return Some(FpResult::exact(format.zero(is_negative)));
    }
    None
}

/// What [`divide`] returns: inputs flushed, then NaN propagation, the
/// special cases, or the dividend's significand raised by one scale and
/// divided by the divisor's, sticky when the division left a remainder, at
/// the difference of the exponents, rounded; with any input-denormal flag
/// added.
pub open spec fn divided(lhs: u64, rhs: u64, context: Context) -> FpResult {
    let format = context.format;
    let (left, right, denormal) = pair_flushed(lhs, rhs, context);
    let is_negative = sign_product(left, right, format);
    if propagated(seq![left, right], format, context.control) is Some {
        flagged(propagated(seq![left, right], format, context.control)->0, denormal)
    } else if special_quotient(left, right, is_negative, context) is Some {
        flagged(special_quotient(left, right, is_negative, context)->0, denormal)
    } else {
        let (l, r) = (unpacked_of(left, format), unpacked_of(right, format));
        let numerator = l.significand * pow2(significand_scale(format) as nat);
        let value = Unpacked {
            is_negative,
            exponent: (l.exponent - r.exponent) as i32,
            significand: (numerator / r.significand as int) as u64,
        };
        flagged(rounded_and_packed(value, format, context.rounding_with(numerator % r.significand as int != 0)), denormal)
    }
}

/// `FDIV`.
pub fn divide(lhs: u64, rhs: u64, context: Context) -> (r: FpResult)
    requires
        // A divisor with bits set above its format but a zero exponent and
        // fraction field is no zero and has no significand to divide by.
        rhs == 0 || rhs == context.format.sign_weight() || context.format.exponent_field(rhs) != 0
            || context.format.fraction_field(rhs) != 0,
    ensures
        r == divided(lhs, rhs, context),
{
    let (lhs, rhs, denormal) = flush_pair(lhs, rhs, context);
    let format = context.format;

    let operands = [lhs, rhs];
    assert(operands@ =~= seq![lhs, rhs]);
    match nan::propagate(&operands, format, context.control) {
        Some(result) => return with_flags(result, denormal),
        None => {},
    }
    let is_negative = format.is_negative(lhs) != format.is_negative(rhs);
    match divide_specials(lhs, rhs, is_negative, context) {
        Some(result) => return with_flags(result, denormal),
        None => {},
    }

    let (left, right) = (unpack(lhs, format), unpack(rhs, format));
    proof {
        lemma_implicit_bit(format);
        assert(format.exponent_field(rhs) != 0 || format.fraction_field(rhs) != 0);
        assert(right.significand != 0);
    }
    let weight = power_of_two(significand_scale(format)) as u128;
    proof {
        assert(weight == implicit_bit(format));
        assert(left.significand * weight <= 0x100_0000_0000_0000 * 0x80_0000_0000_0000) by (nonlinear_arith)
            requires left.significand <= 0x100_0000_0000_0000, weight <= 0x80_0000_0000_0000;
    }
    let numerator = (left.significand as u128) * weight;
    let quotient = numerator / right.significand as u128;
    let is_sticky = numerator % right.significand as u128 != 0;
    proof {
        vstd::arithmetic::div_mod::lemma_div_is_ordered_by_denominator(numerator as int, weight as int, right.significand as int);
        vstd::arithmetic::div_mod::lemma_div_multiples_vanish(left.significand as int, weight as int);
        assert(numerator as int == (weight as int) * (left.significand as int)) by (nonlinear_arith)
            requires numerator == left.significand * weight;
        assert(quotient <= left.significand);
    }

    let value = Unpacked {
        is_negative,
        exponent: left.exponent - right.exponent,
        significand: quotient as u64,
    };
    with_flags(context.pack(value, is_sticky), denormal)
}

/// Whether `root` is the integer square root of `value`: its square fits and
/// the next integer's does not.
pub open spec fn is_floor_sqrt(root: nat, value: nat) -> bool {
    root * root <= value < (root + 1) * (root + 1)
}

/// The integer square root of `value`.
pub open spec fn floor_sqrt(value: nat) -> nat {
    choose|root: nat| is_floor_sqrt(root, value)
}

/// Only one integer is the square root of a value.
pub proof fn lemma_floor_sqrt_unique(a: nat, b: nat, value: nat)
    requires
        is_floor_sqrt(a, value),
        is_floor_sqrt(b, value),
    ensures
        a == b,
{
    if a < b {
        assert((a + 1) * (a + 1) <= b * b) by (nonlinear_arith)
            requires a + 1 <= b;
    }
    if b < a {
        assert((b + 1) * (b + 1) <= a * a) by (nonlinear_arith)
            requires b + 1 <= a;
    }
}

/// The integer square root, by bisection.
pub fn isqrt_u128(value: u128) -> (r: u128)
    requires
        value < 0x100_0000_0000_0000_0000_0000_0000_0000,
    ensures
        is_floor_sqrt(r as nat, value as nat),
        r == floor_sqrt(value as nat),
        r < 0x1000_0000_0000_0000,
{
    let mut low: u128 = 0;
    let mut high: u128 = 0x1000_0000_0000_0000;
    while high - low > 1
        invariant
            low < high <= 0x1000_0000_0000_0000,
            low * low <= value,
            value < high * high,
        decreases high - low,
    {
        let middle = low + (high - low) / 2;
        proof {
            assert(middle * middle <= 0x1000_0000_0000_0000 * 0x1000_0000_0000_0000) by (nonlinear_arith)
                requires middle <= 0x1000_0000_0000_0000;
        }
        if middle * middle <= value {
            low = middle;
        } else {
            high = middle;
        }
    }
    proof {
        assert(high == low + 1);
        lemma_floor_sqrt_unique(low as nat, floor_sqrt(value as nat), value as nat);
    }
    low
}

/// The significand of a square root, before rounding: the operand's
/// significand doubled when its exponent is odd, so the exponent halves
/// exactly, raised by one scale, and its integer square root, sticky when the
/// root was not exact.
pub open spec fn significand_root(value: Unpacked, format: FpFormat) -> (u64, bool) {
    let doubled = if value.exponent % 2 != 0 { 2 * value.significand } else { value.significand as int };
    let scaled = (doubled * pow2(significand_scale(format) as nat)) as nat;
    let root = floor_sqrt(scaled);
    (root as u64, root * root != scaled)
}

/// The square root of an unpacked significand.
pub fn integer_square_root(value: Unpacked, format: FpFormat) -> (r: (u64, bool))
    requires
        value.significand < 0x100_0000_0000_0000,
    ensures
        r == significand_root(value, format),
{
    let half = halved_exponent(value.exponent);
    let mut scaled = value.significand as u128;
    if value.exponent != 2 * half {
        scaled = scaled * 2;
    }
    let weight = power_of_two(significand_scale(format)) as u128;
    proof {
        lemma_implicit_bit(format);
        assert(value.exponent % 2 != 0 <==> value.exponent != 2 * half);
        assert(scaled * weight <= 0x200_0000_0000_0000 * 0x80_0000_0000_0000) by (nonlinear_arith)
            requires scaled <= 0x200_0000_0000_0000, weight <= 0x80_0000_0000_0000;
    }
    scaled = scaled * weight;

    let root = isqrt_u128(scaled);
    proof {
        assert(root * root <= scaled);
    }
    (root as u64, root * root != scaled)
}

/// `exponent` halved, rounding toward minus infinity.
pub fn halved_exponent(exponent: i32) -> (r: i32)
    ensures
        r == exponent / 2,
{
    if exponent >= 0 { exponent / 2 } else { -1 - (-(exponent + 1)) / 2 }
}

/// What [`square_root`] returns: the input flushed, then NaN propagation;
/// a zero returns itself, a negative value is invalid and an infinity
/// returns itself; otherwise the root of the significand at half the
/// exponent, rounded; with any input-denormal flag added.
pub open spec fn rooted(value: u64, context: Context) -> FpResult {
    let format = context.format;
    let (operand, denormal) = input_flushed(value, context);
    if propagated(seq![operand], format, context.control) is Some {
        flagged(propagated(seq![operand], format, context.control)->0, denormal)
    } else if operand == 0 || operand == format.sign_weight() {
        flagged(FpResult { bits: operand, raised: raised(0) }, denormal)
    } else if (operand / format.sign_weight()) % 2 == 1 {
        flagged(FpResult { bits: format.default_nan(), raised: nan::invalid_if(true) }, denormal)
    } else if format.exponent_field(operand) == format.max_exponent() && format.fraction_field(operand) == 0 {
        flagged(FpResult { bits: operand, raised: raised(0) }, denormal)
    } else {
        let unpacked = unpacked_of(operand, format);
        let (significand, is_sticky) = significand_root(unpacked, format);
        let root = Unpacked { is_negative: false, exponent: (unpacked.exponent / 2) as i32, significand };
        flagged(rounded_and_packed(root, format, context.rounding_with(is_sticky)), denormal)
    }
}

/// `FSQRT`.
pub fn square_root(value: u64, context: Context) -> (r: FpResult)
    ensures
        r == rooted(value, context),
{
    let (value, denormal) = flush_input(value, context);
    let format = context.format;

    let operands = [value];
    assert(operands@ =~= seq![value]);
    match nan::propagate(&operands, format, context.control) {
        Some(result) => return with_flags(result, denormal),
        None => {},
    }
    if format.is_zero(value) {
        return with_flags(FpResult::exact(value), denormal);
    }
    if format.is_negative(value) {
        return with_flags(nan::invalid_operation(format), denormal);
    }
    if format.is_infinite(value) {
        return with_flags(FpResult::exact(value), denormal);
    }

    let unpacked = unpack(value, format);
    let (significand, is_sticky) = integer_square_root(unpacked, format);
    let root = Unpacked {
        is_negative: false,
        exponent: halved_exponent(unpacked.exponent),
        significand,
    };
    with_flags(context.pack(root, is_sticky), denormal)
}

/// A signalling NaN first operand is the NaN that propagates, quietened,
/// raising invalid.
proof fn lemma_first_signalling(lhs: u64, second: u64, format: FpFormat, control: FpControl)
    requires
        format.signalling(lhs),
        !control.is_default_nan,
    ensures
        propagated(seq![lhs, second], format, control)
            == Some(FpResult { bits: format.quieted(lhs), raised: nan::invalid_if(true) }),
{
    let operands = seq![lhs, second];
    assert(operands[0] == lhs);
    assert(nan::has_nan(operands, format));
    assert(nan::has_signalling(operands, format));
    assert(nan::first_nan(operands, format) == 0);
}

/// A signalling NaN first operand propagates quietened from every
/// operation: without `FPCR.DN`, the sum, difference, product, quotient and
/// square root of a signalling NaN `lhs` are `lhs` with its quiet bit set,
/// and each raises invalid.
pub proof fn lemma_signalling_nan_propagates(lhs: u64, rhs: u64, context: Context)
    requires
        context.format.signalling(lhs),
        !context.control.is_default_nan,
    ensures
        added(lhs, rhs, false, context).bits == context.format.quieted(lhs),
        added(lhs, rhs, true, context).bits == context.format.quieted(lhs),
        multiplied(lhs, rhs, context).bits == context.format.quieted(lhs),
        divided(lhs, rhs, context).bits == context.format.quieted(lhs),
        rooted(lhs, context).bits == context.format.quieted(lhs),
        added(lhs, rhs, false, context).raised.flags() & FPSR_IOC == FPSR_IOC,
        added(lhs, rhs, true, context).raised.flags() & FPSR_IOC == FPSR_IOC,
        multiplied(lhs, rhs, context).raised.flags() & FPSR_IOC == FPSR_IOC,
        divided(lhs, rhs, context).raised.flags() & FPSR_IOC == FPSR_IOC,
        rooted(lhs, context).raised.flags() & FPSR_IOC == FPSR_IOC,
{
    let format = context.format;
    // A NaN is not subnormal, so flushing leaves it alone.
    assert(input_flushed(lhs, context) == (lhs, raised(0)));
    let right = input_flushed(rhs, context).0;
    let denormal = pair_flushed(lhs, rhs, context).2;
    let invalid = nan::invalid_if(true);
    invalid.lemma_flags(FPSR_IOC);
    FpExceptions::with_flags(0).lemma_flags(0);
    lemma_first_signalling(lhs, right, format, context.control);
    lemma_first_signalling(lhs, negated_if(right, true, format), format, context.control);
    assert(propagated(seq![lhs], format, context.control)
        == Some(FpResult { bits: format.quieted(lhs), raised: invalid })) by {
        let operands = seq![lhs];
        assert(operands[0] == lhs);
        assert(nan::has_nan(operands, format));
        assert(nan::has_signalling(operands, format));
        assert(nan::first_nan(operands, format) == 0);
    }
    assert forall|flags: u8| #![trigger (FPSR_IOC | flags)] (FPSR_IOC | flags) & FPSR_IOC == FPSR_IOC by {
        assert((1u8 | flags) & 1u8 == 1u8) by (bit_vector);
    }
    assert((FPSR_IOC | denormal.flags()) & FPSR_IOC == FPSR_IOC);
    assert((FPSR_IOC | 0u8) & FPSR_IOC == FPSR_IOC);
    assert(raised(FPSR_IOC | denormal.flags()).flags() == FPSR_IOC | denormal.flags()) by {
        FpExceptions::with_flags(0).lemma_flags(FPSR_IOC | denormal.flags());
    }
    assert(raised(FPSR_IOC | 0u8).flags() == FPSR_IOC | 0u8) by {
        FpExceptions::with_flags(0).lemma_flags(FPSR_IOC | 0u8);
    }
}

/// The signed value of an unpacked operand in units of `2^unit`: its
/// significand times `2^(exponent - unit)`, negated when negative.
pub open spec fn value_in_units(value: Unpacked, unit: int) -> int {
    let magnitude = value.significand * pow2((value.exponent - unit) as nat);
    if value.is_negative { -magnitude } else { magnitude }
}

/// The magnitude of the exact sum of a larger operand and a smaller one, in
/// units of the smaller one's exponent: the larger's significand raised by
/// the exponent difference, plus or minus the smaller's significand.
pub open spec fn aligned_exact(larger: Unpacked, smaller: Unpacked) -> int {
    let raised_larger = larger.significand * pow2((larger.exponent - smaller.exponent) as nat);
    if larger.is_negative == smaller.is_negative {
        raised_larger + smaller.significand
    } else {
        raised_larger - smaller.significand
    }
}

/// The non-zero-operand part of [`sum`]: the smaller operand aligned to the
/// larger and added or subtracted.
pub open spec fn aligned_sum(larger: Unpacked, smaller: Unpacked, context: Context) -> (Unpacked, bool) {
    let (aligned, is_sticky) = shifted_out(smaller.significand, (larger.exponent - smaller.exponent) as u32);
    if larger.is_negative == smaller.is_negative {
        (Unpacked { significand: (larger.significand + aligned) as u64, ..larger }, is_sticky)
    } else {
        difference(larger, aligned, is_sticky, context)
    }
}

/// The aligned sum is exact up to its sticky bit: its significand, in units
/// of the larger exponent, is the exact magnitude rounded down, and the
/// sticky bit says whether anything was below it.
#[verifier::spinoff_prover]
proof fn lemma_aligned_sum_exact(larger: Unpacked, smaller: Unpacked, context: Context)
    requires
        operand_shape(larger, context.format),
        operand_shape(smaller, context.format),
        larger.significand != 0,
        smaller.significand != 0,
        at_least(larger, smaller),
    ensures
        ({
            let exact = aligned_exact(larger, smaller);
            let (result, is_sticky) = aligned_sum(larger, smaller, context);
            let step = pow2((larger.exponent - smaller.exponent) as nat);
            &&& exact >= 0
            &&& exact == 0 ==> result.significand == 0 && !is_sticky
            &&& exact > 0 ==> {
                &&& result.exponent == larger.exponent
                &&& result.is_negative == larger.is_negative
                &&& result.significand * step <= exact < (result.significand + 1) * step
                &&& is_sticky <==> exact != result.significand * step
            }
        }),
{
    lemma_implicit_bit(context.format);
    lemma2_to64();
    vstd::arithmetic::power2::lemma2_to64_rest();
    let t = implicit_bit(context.format) as int;
    let shift = (larger.exponent - smaller.exponent) as nat;
    let step = pow2(shift) as int;
    lemma_pow2_pos(shift);
    let big = larger.significand as int;
    let small = smaller.significand as int;
    let (aligned, is_sticky) = shifted_out(smaller.significand, shift as u32);
    // The smaller significand, split at the shift.
    let rest: int = if shift >= 64 { small } else { small % step };
    assert(small == aligned * step + rest && 0 <= rest < step && (is_sticky <==> rest != 0)) by {
        if shift >= 64 {
            vstd::arithmetic::power2::lemma_pow2_strictly_increases(56, shift);
            assert(small < step);
        } else {
            vstd::arithmetic::div_mod::lemma_fundamental_div_mod(small, step);
            assert(small == step * (small / step) + small % step);
            assert(aligned * step == step * (small / step)) by (nonlinear_arith)
                requires aligned == small / step;
        }
    }
    // The larger operand, raised to the smaller's units, is at least as large.
    assert(big * step >= small) by {
        if shift == 0 {
            assert(step == 1);
        } else {
            assert(step >= 2) by {
                vstd::arithmetic::power2::lemma_pow2_unfold(shift);
                lemma_pow2_pos((shift - 1) as nat);
            }
            assert(big * step >= t * 2) by (nonlinear_arith)
                requires big >= t, step >= 2, t > 0;
        }
    }
    if larger.is_negative == smaller.is_negative {
        assert(aligned_exact(larger, smaller) == big * step + small);
        assert(aligned_exact(larger, smaller) == (big + aligned) * step + rest) by (nonlinear_arith)
            requires small == aligned * step + rest, aligned_exact(larger, smaller) == big * step + small;
        assert((big + aligned) * step + rest < (big + aligned + 1) * step) by (nonlinear_arith)
            requires rest < step;
        assert(big + aligned < 0x1_0000_0000_0000_0000) by {
            assert(aligned <= small) by {
                if shift < 64 {
                    vstd::arithmetic::div_mod::lemma_div_is_ordered_by_denominator(small, 1, step);
                }
            }
        }
        assert(aligned_exact(larger, smaller) > 0) by (nonlinear_arith)
            requires big > 0, step > 0, aligned >= 0, rest >= 0, aligned_exact(larger, smaller) == (big + aligned) * step + rest;
    } else {
        assert(aligned_exact(larger, smaller) == big * step - small);
        assert(aligned <= big) by {
            if shift < 64 {
                assert(aligned * step <= small) by (nonlinear_arith)
                    requires small == aligned * step + rest, rest >= 0;
                assert(aligned * step <= big * step);
                assert(aligned <= big) by (nonlinear_arith)
                    requires aligned * step <= big * step, step > 0;
            }
        }
        if rest == 0 {
            assert(big * step - small == (big - aligned) * step) by (nonlinear_arith)
                requires small == aligned * step + rest, rest == 0;
            if big - aligned == 0 {
                assert((big - aligned) * step == 0) by (nonlinear_arith)
                    requires big - aligned == 0;
            } else {
                assert((big - aligned) * step > 0) by (nonlinear_arith)
                    requires big - aligned > 0, step > 0;
                assert((big - aligned) * step < (big - aligned + 1) * step) by (nonlinear_arith)
                    requires step > 0;
            }
        } else {
            // A borrow: one unit of the larger's scale less, and the
            // complement of what was shifted out above it.
            assert(aligned < big) by {
                if aligned == big {
                    assert(big * step - small == -rest) by (nonlinear_arith)
                        requires small == aligned * step + rest, aligned == big;
                }
            }
            assert(big * step - small == (big - aligned - 1) * step + (step - rest)) by (nonlinear_arith)
                requires small == aligned * step + rest;
            assert((big - aligned - 1) * step + (step - rest) < (big - aligned) * step) by (nonlinear_arith)
                requires rest > 0;
            assert((big - aligned - 1) * step < (big - aligned - 1) * step + (step - rest)) by (nonlinear_arith)
                requires rest < step;
            assert((big - aligned - 1) * step >= 0) by (nonlinear_arith)
                requires big - aligned - 1 >= 0, step > 0;
        }
    }
}

/// Addition is exact up to its sticky bit: for two non-zero unpacked
/// operands, measured in units of the smaller exponent, an exact sum of zero
/// gives a zero significand and no sticky bit; any other sum gives a result
/// of its sign whose significand, at the result's exponent, is the sum's
/// magnitude rounded down, with the sticky bit set exactly when something
/// was below it.
pub proof fn lemma_sum_exact_or_sticky(lhs: Unpacked, rhs: Unpacked, context: Context)
    requires
        operand_shape(lhs, context.format),
        operand_shape(rhs, context.format),
        lhs.significand != 0,
        rhs.significand != 0,
    ensures
        ({
            let unit: int = if lhs.exponent <= rhs.exponent { lhs.exponent as int } else { rhs.exponent as int };
            let exact = value_in_units(lhs, unit) + value_in_units(rhs, unit);
            let (result, is_sticky) = sum(lhs, rhs, context);
            let magnitude = if exact < 0 { -exact } else { exact };
            let step = pow2((result.exponent - unit) as nat);
            &&& exact == 0 ==> result.significand == 0 && !is_sticky
            &&& exact != 0 ==> {
                &&& result.exponent >= unit
                &&& result.is_negative <==> exact < 0
                &&& result.significand * step <= magnitude < (result.significand + 1) * step
                &&& is_sticky <==> magnitude != result.significand * step
            }
        }),
{
    let (larger, smaller) = if at_least(lhs, rhs) { (lhs, rhs) } else { (rhs, lhs) };
    lemma_aligned_sum_exact(larger, smaller, context);
    let unit: int = if lhs.exponent <= rhs.exponent { lhs.exponent as int } else { rhs.exponent as int };
    assert(unit == smaller.exponent);
    lemma2_to64();
    assert(pow2(0) == 1);
    let step = pow2((larger.exponent - smaller.exponent) as nat) as int;
    assert((smaller.exponent - unit) as nat == 0);
    assert(smaller.significand * pow2(0) == smaller.significand);
    assert(value_in_units(smaller, unit) == if smaller.is_negative { -(smaller.significand as int) } else { smaller.significand as int });
    assert(value_in_units(larger, unit) == if larger.is_negative { -(larger.significand * step) } else { larger.significand * step });
    let exact = value_in_units(lhs, unit) + value_in_units(rhs, unit);
    assert(exact == value_in_units(larger, unit) + value_in_units(smaller, unit));
    assert(exact == if larger.is_negative { -aligned_exact(larger, smaller) } else { aligned_exact(larger, smaller) });
    assert(sum(lhs, rhs, context) == aligned_sum(larger, smaller, context));
}

/// Multiplication is correctly rounded: with flush-to-zero off and any mode
/// but round-to-odd, for two finite non-zero operands, neither a NaN, the
/// product is the exact product of the two values correctly rounded in the
/// format. The exact product is the product of the unpacked significands,
/// in units of two to the sum of the exponents less twice the significand
/// scale; `correctly_packed` says what that rounding gives in each range,
/// once the value is normalised and the exact product rescaled to it.
pub proof fn lemma_product_is_correctly_rounded(lhs: u64, rhs: u64, context: Context)
    requires
        !flushes(context.format, context.control),
        context.rounding != FpRounding::Odd,
        lhs <= context.format.mask(),
        rhs <= context.format.mask(),
        propagated(seq![lhs, rhs], context.format, context.control) is None,
        special_product(lhs, rhs, sign_product(lhs, rhs, context.format), context) is None,
    ensures
        ({
            let format = context.format;
            let (l, r) = (unpacked_of(lhs, format), unpacked_of(rhs, format));
            let scale = significand_scale(format) as nat;
            let product = l.significand * r.significand;
            let (significand, is_sticky) = narrowed(product as u128, scale as u32);
            let value = Unpacked {
                is_negative: sign_product(lhs, rhs, format),
                exponent: (l.exponent + r.exponent) as i32,
                significand,
            };
            let (normal, sticky) = normalised(value, is_sticky, format);
            let (n, d) = rescaled(product as int, pow2(scale) as int, value, normal);
            &&& exact_within(normal.significand as int, sticky, n, d)
            &&& correctly_packed(normal, sticky, format, context.rounding, multiplied(lhs, rhs, context), n, d)
        }),
{
    let format = context.format;
    lemma_unpacked_shape(lhs, format);
    lemma_unpacked_shape(rhs, format);
    lemma_implicit_bit(format);
    lemma2_to64();
    let (l, r) = (unpacked_of(lhs, format), unpacked_of(rhs, format));
    crate::fp::softfloat::compare::lemma_fields(format, lhs);
    crate::fp::softfloat::compare::lemma_fields(format, rhs);
    if format.exponent_field(lhs) == 0 && format.fraction_field(lhs) == 0 {
        assert(format.exponent_field(lhs) * (format.mantissa_mask() + 1) == 0) by (nonlinear_arith)
            requires format.exponent_field(lhs) == 0;
    }
    if format.exponent_field(rhs) == 0 && format.fraction_field(rhs) == 0 {
        assert(format.exponent_field(rhs) * (format.mantissa_mask() + 1) == 0) by (nonlinear_arith)
            requires format.exponent_field(rhs) == 0;
    }
    assert(l.significand != 0 && r.significand != 0);
    let t = implicit_bit(format) as int;
    let scale = significand_scale(format) as nat;
    assert(t == pow2(scale));
    let product: int = l.significand * r.significand;
    assert(t * t <= product < 4 * t * t) by (nonlinear_arith)
        requires t <= l.significand < 2 * t, t <= r.significand < 2 * t, product == l.significand * r.significand;
    assert(t * t <= 0x80_0000_0000_0000 * 0x80_0000_0000_0000) by (nonlinear_arith)
        requires 0 < t <= 0x80_0000_0000_0000;
    let weight: int = pow2(scale) as int;
    lemma_pow2_pos(scale);
    let (significand, is_sticky) = narrowed(product as u128, scale as u32);
    vstd::arithmetic::div_mod::lemma_fundamental_div_mod(product, weight);
    let q = product / weight;
    assert(q >= t && q < 4 * t) by {
        vstd::arithmetic::div_mod::lemma_div_is_ordered(t * t, product, weight);
        vstd::arithmetic::div_mod::lemma_div_multiples_vanish(t, t);
        assert((t * t) / t == t);
        assert(product / weight < 4 * t) by (nonlinear_arith)
            requires product < 4 * t * t, weight == t, t > 0, product >= 0;
    }
    assert(4 * t * t <= 4 * (0x80_0000_0000_0000 * 0x80_0000_0000_0000)) by (nonlinear_arith)
        requires t * t <= 0x80_0000_0000_0000 * 0x80_0000_0000_0000;
    assert(product < 0x1_0000_0000_0000_0000_0000_0000_0000_0000);
    assert((product as u128) as int == product);
    assert((scale as u32) as nat == scale);
    assert(q < 0x1_0000_0000_0000_0000);
    assert(significand == q);
    assert(exact_within(significand as int, is_sticky, product, weight)) by (nonlinear_arith)
        requires
            product == weight * q + product % weight,
            0 <= product % weight < weight,
            is_sticky == (product % weight != 0),
            significand == q,
            weight > 0;
    let value = Unpacked { is_negative: sign_product(lhs, rhs, format), exponent: (l.exponent + r.exponent) as i32, significand };
    lemma_round_and_pack_is_correctly_rounded(value, is_sticky, format, context.control, context.rounding, product, weight);
    assert(value.significand >= implicit_bit(format));
    // With flushing off nothing is flushed and no input-denormal flag is added.
    FpExceptions::with_flags(0).lemma_flags(0);
    assert(pair_flushed(lhs, rhs, context) == (lhs, rhs, raised(0u8 | 0u8)));
    assert(0u8 | 0u8 == 0) by (bit_vector);
    let rounded = rounded_and_packed(value, format, context.rounding_with(is_sticky));
    rounded.raised.lemma_flags(rounded.raised.flags());
    assert(rounded.raised.flags() | 0 == rounded.raised.flags()) by (bit_vector);
    assert(flagged(rounded, raised(0)) == rounded);
}

/// Division is correctly rounded: with flush-to-zero off and any mode but
/// round-to-odd, for a finite dividend and a finite non-zero divisor, neither
/// zero nor infinite and neither a NaN, the quotient is the exact quotient of
/// the two values correctly rounded in the format. The exact quotient is the
/// dividend's significand, raised by one significand scale, over the
/// divisor's, in units of two to the difference of the exponents less that
/// scale; `correctly_packed` says what that rounding gives in each range,
/// once the value is normalised and the exact quotient rescaled to it.
pub proof fn lemma_quotient_is_correctly_rounded(lhs: u64, rhs: u64, context: Context)
    requires
        !flushes(context.format, context.control),
        context.rounding != FpRounding::Odd,
        lhs <= context.format.mask(),
        rhs <= context.format.mask(),
        propagated(seq![lhs, rhs], context.format, context.control) is None,
        special_quotient(lhs, rhs, sign_product(lhs, rhs, context.format), context) is None,
    ensures
        ({
            let format = context.format;
            let (l, r) = (unpacked_of(lhs, format), unpacked_of(rhs, format));
            let numerator = l.significand * pow2(significand_scale(format) as nat);
            let value = Unpacked {
                is_negative: sign_product(lhs, rhs, format),
                exponent: (l.exponent - r.exponent) as i32,
                significand: (numerator / r.significand as int) as u64,
            };
            let is_sticky = numerator % r.significand as int != 0;
            let (normal, sticky) = normalised(value, is_sticky, format);
            let (n, d) = rescaled(numerator, r.significand as int, value, normal);
            &&& exact_near(normal.significand as int, sticky, n, d, normal_width(value, normal, sticky))
            &&& correctly_packed(normal, sticky, format, context.rounding, divided(lhs, rhs, context), n, d)
        }),
{
    let format = context.format;
    lemma_unpacked_shape(lhs, format);
    lemma_unpacked_shape(rhs, format);
    lemma_implicit_bit(format);
    lemma2_to64();
    let (l, r) = (unpacked_of(lhs, format), unpacked_of(rhs, format));
    crate::fp::softfloat::compare::lemma_fields(format, lhs);
    crate::fp::softfloat::compare::lemma_fields(format, rhs);
    if format.exponent_field(lhs) == 0 && format.fraction_field(lhs) == 0 {
        assert(format.exponent_field(lhs) * (format.mantissa_mask() + 1) == 0) by (nonlinear_arith)
            requires format.exponent_field(lhs) == 0;
    }
    if format.exponent_field(rhs) == 0 && format.fraction_field(rhs) == 0 {
        assert(format.exponent_field(rhs) * (format.mantissa_mask() + 1) == 0) by (nonlinear_arith)
            requires format.exponent_field(rhs) == 0;
    }
    assert(l.significand != 0 && r.significand != 0);
    let t = implicit_bit(format) as int;
    let scale = significand_scale(format) as nat;
    assert(t == pow2(scale));
    let numerator: int = l.significand * pow2(scale);
    let divisor: int = r.significand as int;
    assert(numerator == l.significand * t);
    vstd::arithmetic::div_mod::lemma_fundamental_div_mod(numerator, divisor);
    let q = numerator / divisor;
    let rem = numerator % divisor;
    // The quotient lies between half the implicit bit and twice it.
    assert(t < 2 * q + 2 && q < 2 * t) by (nonlinear_arith)
        requires
            t <= l.significand < 2 * t,
            t <= divisor < 2 * t,
            numerator == l.significand * t,
            numerator == divisor * q + rem,
            0 <= rem < divisor,
            t > 0;
    assert(q < 0x1_0000_0000_0000_0000);
    assert((q as u64) as int == q);
    let is_sticky = rem != 0;
    assert(exact_within(q, is_sticky, numerator, divisor)) by (nonlinear_arith)
        requires
            numerator == divisor * q + rem,
            0 <= rem < divisor,
            is_sticky == (rem != 0);
    let value = Unpacked { is_negative: sign_product(lhs, rhs, format), exponent: (l.exponent - r.exponent) as i32, significand: q as u64 };
    assert(value.significand != 0) by {
        assert(t >= 0x2000);
    }
    assert(4 * value.significand >= implicit_bit(format));
    lemma_round_and_pack_is_correctly_rounded(value, is_sticky, format, context.control, context.rounding, numerator, divisor);
    // With flushing off nothing is flushed and no input-denormal flag is added.
    FpExceptions::with_flags(0).lemma_flags(0);
    assert(pair_flushed(lhs, rhs, context) == (lhs, rhs, raised(0u8 | 0u8)));
    assert(0u8 | 0u8 == 0) by (bit_vector);
    let rounded = rounded_and_packed(value, format, context.rounding_with(is_sticky));
    rounded.raised.lemma_flags(rounded.raised.flags());
    assert(rounded.raised.flags() | 0 == rounded.raised.flags()) by (bit_vector);
    assert(flagged(rounded, raised(0)) == rounded);
}

/// A sum that dropped bits below its last unit is close to normal: the
/// operands' significands carry three clear guard bits, so bits are only
/// dropped when the smaller operand sits at least four places lower, and
/// then the aligned sum keeps at least a quarter of the implicit bit.
proof fn lemma_sticky_sum_is_large(larger: Unpacked, smaller: Unpacked, context: Context)
    requires
        operand_shape(larger, context.format),
        operand_shape(smaller, context.format),
        larger.significand != 0,
        smaller.significand != 0,
        smaller.significand % 8 == 0,
        at_least(larger, smaller),
    ensures
        aligned_sum(larger, smaller, context).1 ==> 4 * aligned_sum(larger, smaller, context).0.significand
            >= implicit_bit(context.format),
{
    lemma_implicit_bit(context.format);
    lemma2_to64();
    let t = implicit_bit(context.format) as int;
    let shift = (larger.exponent - smaller.exponent) as nat;
    assert((shift as u32) as nat == shift);
    let big = larger.significand as int;
    let small = smaller.significand as int;
    let (aligned, is_sticky) = shifted_out(smaller.significand, shift as u32);
    if is_sticky {
        assert(8 * aligned < t) by {
            if shift < 64 {
                lemma_pow2_pos(shift);
                let step = pow2(shift) as int;
                if shift <= 3 {
                    // A step of at most eight divides the significand.
                    assert(step == 1 || step == 2 || step == 4 || step == 8) by {
                        assert(pow2(0) == 1 && pow2(1) == 2 && pow2(2) == 4 && pow2(3) == 8);
                    }
                    assert(small % step == 0) by (nonlinear_arith)
                        requires small % 8 == 0, step == 1 || step == 2 || step == 4 || step == 8, small >= 0;
                    assert(false);
                }
                assert(step >= 16) by {
                    vstd::arithmetic::power2::lemma_pow2_strictly_increases(3, shift);
                    assert(pow2(4) == 16);
                    if shift > 4 {
                        vstd::arithmetic::power2::lemma_pow2_strictly_increases(4, shift);
                    }
                }
                assert(aligned == small / step);
                assert(8 * (small / step) < t) by (nonlinear_arith)
                    requires small < 2 * t, step >= 16, small >= 0, t > 0;
            }
        }
        assert(big >= t);
        if larger.is_negative != smaller.is_negative {
            assert(4 * (big - aligned - 1) >= t) by (nonlinear_arith)
                requires big >= t, 8 * aligned < t, t >= 0x2000, aligned >= 0;
        }
    }
}

/// The unrounded sum of two non-zero operands whose exact sum is not zero
/// meets what correct rounding asks of it: it has the exact sum's sign, a
/// non-zero significand within the exponent range, and it stands for the
/// exact magnitude within one unit of its exponent, close to normal whenever
/// bits were dropped.
proof fn lemma_sum_is_ready_to_round(l: Unpacked, r: Unpacked, context: Context)
    requires
        operand_shape(l, context.format),
        operand_shape(r, context.format),
        l.significand != 0,
        r.significand != 0,
        l.significand % 8 == 0,
        r.significand % 8 == 0,
        ({
            let unit: int = if l.exponent <= r.exponent { l.exponent as int } else { r.exponent as int };
            value_in_units(l, unit) + value_in_units(r, unit) != 0
        }),
    ensures
        ({
            let unit: int = if l.exponent <= r.exponent { l.exponent as int } else { r.exponent as int };
            let exact = value_in_units(l, unit) + value_in_units(r, unit);
            let magnitude = if exact < 0 { -exact } else { exact };
            let (value, is_sticky) = sum(l, r, context);
            let step = pow2((value.exponent - unit) as nat) as int;
            &&& value.is_negative == (exact < 0)
            &&& value.significand != 0
            &&& i32::MIN + 64 <= value.exponent <= i32::MAX - 64
            &&& exact_within(value.significand as int, is_sticky, magnitude, step)
            &&& 4 * value.significand >= implicit_bit(context.format) || !is_sticky
        }),
{
    lemma_sum_exact_or_sticky(l, r, context);
    let (larger, smaller) = if at_least(l, r) { (l, r) } else { (r, l) };
    lemma_sticky_sum_is_large(larger, smaller, context);
    assert(sum(l, r, context) == aligned_sum(larger, smaller, context));
    let unit: int = if l.exponent <= r.exponent { l.exponent as int } else { r.exponent as int };
    let (value, is_sticky) = sum(l, r, context);
    lemma_pow2_pos((value.exponent - unit) as nat);
    if value.significand == 0 && !is_sticky {
        assert(0 * pow2((value.exponent - unit) as nat) == 0);
    }
}

/// Addition and subtraction are correctly rounded: with flush-to-zero off
/// and any mode but round-to-odd, for two finite non-zero operands, neither
/// a NaN, whose exact sum is not zero, the result is the exact sum correctly
/// rounded in the format. The exact sum is that of the unpacked operands (the
/// subtrahend negated) in units of two to the smaller exponent; the sum's
/// sign is the exact sum's; `correctly_packed` says what rounding its
/// magnitude gives in each range, once the value is normalised and the
/// magnitude rescaled to it.
pub proof fn lemma_sum_is_correctly_rounded(lhs: u64, rhs: u64, is_subtracting: bool, context: Context)
    requires
        !flushes(context.format, context.control),
        context.rounding != FpRounding::Odd,
        propagated(seq![lhs, negated_if(rhs, is_subtracting, context.format)], context.format, context.control) is None,
        infinite_sum(lhs, negated_if(rhs, is_subtracting, context.format), context) is None,
        unpacked_of(lhs, context.format).significand != 0,
        unpacked_of(negated_if(rhs, is_subtracting, context.format), context.format).significand != 0,
        ({
            let (l, r) = (unpacked_of(lhs, context.format), unpacked_of(negated_if(rhs, is_subtracting, context.format), context.format));
            let unit: int = if l.exponent <= r.exponent { l.exponent as int } else { r.exponent as int };
            value_in_units(l, unit) + value_in_units(r, unit) != 0
        }),
    ensures
        ({
            let format = context.format;
            let (l, r) = (unpacked_of(lhs, format), unpacked_of(negated_if(rhs, is_subtracting, format), format));
            let unit: int = if l.exponent <= r.exponent { l.exponent as int } else { r.exponent as int };
            let exact = value_in_units(l, unit) + value_in_units(r, unit);
            let magnitude = if exact < 0 { -exact } else { exact };
            let (value, is_sticky) = sum(l, r, context);
            let (normal, sticky) = normalised(value, is_sticky, format);
            let (n, d) = rescaled(magnitude, pow2((value.exponent - unit) as nat) as int, value, normal);
            &&& value.is_negative == (exact < 0)
            &&& exact_near(normal.significand as int, sticky, n, d, normal_width(value, normal, sticky))
            &&& correctly_packed(normal, sticky, format, context.rounding, added(lhs, rhs, is_subtracting, context), n, d)
        }),
{
    let format = context.format;
    let right = negated_if(rhs, is_subtracting, format);
    lemma_unpacked_shape(lhs, format);
    lemma_unpacked_shape(right, format);
    let (l, r) = (unpacked_of(lhs, format), unpacked_of(right, format));
    let unit: int = if l.exponent <= r.exponent { l.exponent as int } else { r.exponent as int };
    let exact = value_in_units(l, unit) + value_in_units(r, unit);
    let magnitude = if exact < 0 { -exact } else { exact };
    lemma_sum_is_ready_to_round(l, r, context);
    let (value, is_sticky) = sum(l, r, context);
    let step = pow2((value.exponent - unit) as nat) as int;
    lemma_round_and_pack_is_correctly_rounded(value, is_sticky, format, context.control, context.rounding, magnitude, step);
    // With flushing off nothing is flushed and no input-denormal flag is added.
    FpExceptions::with_flags(0).lemma_flags(0);
    assert(pair_flushed(lhs, rhs, context) == (lhs, rhs, raised(0u8 | 0u8)));
    assert(0u8 | 0u8 == 0) by (bit_vector);
    let rounded = rounded_and_packed(value, format, context.rounding_with(is_sticky));
    rounded.raised.lemma_flags(rounded.raised.flags());
    assert(rounded.raised.flags() | 0 == rounded.raised.flags()) by (bit_vector);
    assert(flagged(rounded, raised(0)) == rounded);
}

/// Square root is correctly rounded: with flush-to-zero off and any mode
/// but round-to-odd, for a finite positive operand, not a NaN, the integer
/// root of the operand's significand (doubled for an odd exponent, raised by
/// one significand scale) is the floor of the exact root, exact exactly when
/// the sticky flag is clear; so the exact root lies in the interval that the
/// root and its flag name, and for every value `n / d` in that interval the
/// result is `n / d` correctly rounded in the format, as `correctly_packed`
/// says range by range, once normalised and rescaled. Every value in that
/// interval lies on the same side of each multiple of a unit as the exact
/// root does, so the result is the exact root correctly rounded.
pub proof fn lemma_root_is_correctly_rounded(value: u64, context: Context, n: int, d: int)
    requires
        !flushes(context.format, context.control),
        context.rounding != FpRounding::Odd,
        value <= context.format.mask(),
        propagated(seq![value], context.format, context.control) is None,
        value != 0 && value != context.format.sign_weight(),
        (value / context.format.sign_weight()) % 2 == 0,
        !(context.format.exponent_field(value) == context.format.max_exponent() && context.format.fraction_field(value) == 0),
        ({
            let (root, is_sticky) = significand_root(unpacked_of(value, context.format), context.format);
            exact_within(root as int, is_sticky, n, d)
        }),
    ensures
        ({
            let format = context.format;
            let unpacked = unpacked_of(value, format);
            let doubled = if unpacked.exponent % 2 != 0 { 2 * unpacked.significand } else { unpacked.significand as int };
            let scaled = (doubled * pow2(significand_scale(format) as nat)) as nat;
            let (root, is_sticky) = significand_root(unpacked, format);
            let exponent = (unpacked.exponent / 2) as i32;
            let root_value = Unpacked { is_negative: false, exponent, significand: root };
            let (normal, sticky) = normalised(root_value, is_sticky, format);
            let (n2, d2) = rescaled(n, d, root_value, normal);
            &&& is_floor_sqrt(root as nat, scaled)
            &&& is_sticky == (root * root != scaled)
            &&& exact_near(normal.significand as int, sticky, n2, d2, normal_width(root_value, normal, sticky))
            &&& correctly_packed(normal, sticky, format, context.rounding, rooted(value, context), n2, d2)
        }),
{
    let format = context.format;
    lemma_unpacked_shape(value, format);
    lemma_implicit_bit(format);
    lemma2_to64();
    let unpacked = unpacked_of(value, format);
    crate::fp::softfloat::compare::lemma_fields(format, value);
    if format.exponent_field(value) == 0 && format.fraction_field(value) == 0 {
        assert(format.exponent_field(value) * (format.mantissa_mask() + 1) == 0) by (nonlinear_arith)
            requires format.exponent_field(value) == 0;
        assert((value / format.sign_weight()) % 2 == 0);
    }
    assert(unpacked.significand != 0);
    let t = implicit_bit(format) as int;
    let scale = significand_scale(format) as nat;
    assert(t == pow2(scale));
    let sig = unpacked.significand as int;
    let doubled: int = if unpacked.exponent % 2 != 0 { 2 * sig } else { sig };
    assert(t <= doubled < 4 * t);
    let scaled_int = doubled * t;
    assert(t * t <= scaled_int < 4 * t * t) by (nonlinear_arith)
        requires t <= doubled < 4 * t, scaled_int == doubled * t, t > 0;
    let scaled = scaled_int as nat;
    let (root, is_sticky) = significand_root(unpacked, format);
    let exact_root = floor_sqrt(scaled);
    // The root exists and is unique; it lies between the implicit bit and twice it.
    assert(is_floor_sqrt(exact_root, scaled)) by {
        lemma_floor_sqrt_exists(scaled);
    }
    assert(t <= exact_root < 2 * t) by {
        if exact_root < t {
            assert((exact_root + 1) * (exact_root + 1) <= t * t) by (nonlinear_arith)
                requires exact_root + 1 <= t, exact_root >= 0;
        }
        if exact_root >= 2 * t {
            assert(exact_root * exact_root >= 4 * t * t) by (nonlinear_arith)
                requires exact_root >= 2 * t, t > 0;
        }
    }
    assert(t <= 0x80_0000_0000_0000);
    assert(root == exact_root);
    let exponent = (unpacked.exponent / 2) as i32;
    let root_value = Unpacked { is_negative: false, exponent, significand: root };
    lemma_round_and_pack_is_correctly_rounded(root_value, is_sticky, format, context.control, context.rounding, n, d);
    // With flushing off nothing is flushed and no input-denormal flag is added.
    FpExceptions::with_flags(0).lemma_flags(0);
    assert(input_flushed(value, context) == (value, raised(0)));
    let rounded = rounded_and_packed(root_value, format, context.rounding_with(is_sticky));
    rounded.raised.lemma_flags(rounded.raised.flags());
    assert(rounded.raised.flags() | 0 == rounded.raised.flags()) by (bit_vector);
    assert(flagged(rounded, raised(0)) == rounded);
}

/// Every natural number has an integer square root.
proof fn lemma_floor_sqrt_exists(value: nat)
    ensures
        exists|r: nat| is_floor_sqrt(r, value),
    decreases value,
{
    if value == 0 {
        assert(0 * 0 <= 0nat < (0 + 1) * (0 + 1)) by (nonlinear_arith);
        assert(is_floor_sqrt(0, 0));
    } else {
        let previous = (value - 1) as nat;
        lemma_floor_sqrt_exists(previous);
        let r = choose|r: nat| is_floor_sqrt(r, previous);
        if value < (r + 1) * (r + 1) {
            assert(is_floor_sqrt(r, value));
        } else {
            assert(value == (r + 1) * (r + 1));
            assert((r + 1) * (r + 1) < (r + 2) * (r + 2)) by (nonlinear_arith);
            assert(is_floor_sqrt(r + 1, value));
        }
    }
}

} // verus!
