//! Comparison, and the minimum and maximum families.
//!
//! Comparison is a total function over bit patterns rather than a subtraction:
//! `+0.0` and `-0.0` compare equal despite differing bits, and any NaN operand
//! makes the result unordered rather than any of the three orderings.
use vstd::prelude::*;
use vstd::arithmetic::power2::{pow2, lemma_pow2_pos, lemma_pow2_unfold, lemma_pow2_strictly_increases};
use super::nan::{self, has_nan, has_signalling, invalid_if};
use crate::fp::control::{FpControl, FpExceptions};
use crate::fp::operand::{FpComparison, FpFormat, FpResult};

verus! {

/// Whether the sign bit of `bits` is set.
pub open spec fn sign_of(format: FpFormat, bits: u64) -> bool {
    (bits / format.sign_weight()) % 2 == 1
}

/// Where a non-NaN value sits in IEEE order, as an integer: its magnitude bits
/// (everything but the sign bit), negated when the sign is set. Both zeroes sit
/// at 0.
///
/// Within one sign the magnitude of an IEEE value grows with its magnitude
/// bits, which is what makes this key order the values.
pub open spec fn order_key(format: FpFormat, bits: u64) -> int {
    if sign_of(format, bits) { -(bits - format.sign_weight()) } else { bits as int }
}

/// A set sign bit weighs at least the sign weight; the two zeroes sit at
/// key 0.
proof fn lemma_sign_bit(format: FpFormat, bits: u64)
    ensures
        sign_of(format, bits) ==> bits >= format.sign_weight(),
        !sign_of(format, bits) ==> bits != format.sign_weight(),
        sign_of(format, format.sign_weight()),
        order_key(format, 0) == 0,
        order_key(format, format.sign_weight()) == 0,
{
    match format {
        FpFormat::Half => {
            assert((bits / 0x8000u64) % 2 == 1 ==> bits >= 0x8000u64) by (bit_vector);
            assert(0x8000u64 / 0x8000u64 == 1);
        },
        FpFormat::Single => {
            assert((bits / 0x8000_0000u64) % 2 == 1 ==> bits >= 0x8000_0000u64) by (bit_vector);
            assert(0x8000_0000u64 / 0x8000_0000u64 == 1);
        },
        FpFormat::Double => {
            assert((bits / 0x8000_0000_0000_0000u64) % 2 == 1 ==> bits >= 0x8000_0000_0000_0000u64) by (bit_vector);
            assert(0x8000_0000_0000_0000u64 / 0x8000_0000_0000_0000u64 == 1);
        },
    }
}

/// The comparison outcome of two keys.
pub open spec fn key_ordering(lhs: int, rhs: int) -> FpComparison {
    if lhs < rhs {
        FpComparison::Less
    } else if lhs == rhs {
        FpComparison::Equal
    } else {
        FpComparison::Greater
    }
}

/// What comparing `lhs` with `rhs` gives: unordered when either is a NaN, and
/// otherwise the order of their keys.
pub open spec fn comparison(lhs: u64, rhs: u64, format: FpFormat) -> FpComparison {
    if has_nan(seq![lhs, rhs], format) {
        FpComparison::Unordered
    } else {
        key_ordering(order_key(format, lhs), order_key(format, rhs))
    }
}

/// Compares two values.
///
/// `is_signalling` selects `FCMPE` over `FCMP`: both raise invalid for a
/// signalling NaN, but only `FCMPE` raises it for a quiet one. An ordered
/// comparison raises nothing.
pub fn compare(lhs: u64, rhs: u64, format: FpFormat, is_signalling: bool) -> (r: (FpComparison, FpExceptions))
    ensures
        r.0 == comparison(lhs, rhs, format),
        r.1 == invalid_if(has_nan(seq![lhs, rhs], format) && (is_signalling || has_signalling(seq![lhs, rhs], format))),
{
    let operands = [lhs, rhs];
    assert(operands@ =~= seq![lhs, rhs]);
    if nan::any_nan(&operands, format) {
        let is_invalid = is_signalling || nan::signalling_among(&operands, format);
        let raised = if is_invalid { FpExceptions::invalid() } else { FpExceptions::none() };
        return (FpComparison::Unordered, raised);
    }

    (ordering(lhs, rhs, format), FpExceptions::none())
}

/// The ordering of two non-NaN values.
fn ordering(lhs: u64, rhs: u64, format: FpFormat) -> (r: FpComparison)
    ensures
        r == key_ordering(order_key(format, lhs), order_key(format, rhs)),
{
    proof {
        lemma_sign_bit(format, lhs);
        lemma_sign_bit(format, rhs);
    }
    // The two zeroes are equal despite their differing sign bits, so this case
    // cannot be folded into the magnitude comparison below.
    if format.is_zero(lhs) && format.is_zero(rhs) {
        return FpComparison::Equal;
    }
    if lhs == rhs {
        return FpComparison::Equal;
    }

    let is_lhs_negative = format.is_negative(lhs);
    let is_rhs_negative = format.is_negative(rhs);
    if is_lhs_negative != is_rhs_negative {
        return if is_lhs_negative { FpComparison::Less } else { FpComparison::Greater };
    }

    // Within one sign, IEEE's ordering matches the magnitude ordering of the
    // bit patterns, reversed for negatives.
    let sign = format.zero(true);
    let is_less = if is_lhs_negative {
        lhs - sign > rhs - sign
    } else {
        lhs < rhs
    };
    if is_less {
        FpComparison::Less
    } else {
        FpComparison::Greater
    }
}

/// Which extremum to take, and how it treats NaNs.
#[derive(Debug, Clone, Copy, PartialEq, Eq, Structural)]
pub enum Extremum {
    /// `FMAX` — a NaN operand propagates.
    Max,
    /// `FMIN` — a NaN operand propagates.
    Min,
    /// `FMAXNM` — a single quiet NaN operand is ignored.
    MaxNum,
    /// `FMINNM` — a single quiet NaN operand is ignored.
    MinNum,
}

impl Extremum {
    /// Whether this picks the larger operand.
    #[verifier::allow_in_spec]
    pub fn is_maximum(self) -> (r: bool)
        returns
            self is Max || self is MaxNum,
    {
        matches!(self, Extremum::Max | Extremum::MaxNum)
    }

    /// Whether a lone quiet NaN is ignored rather than propagated.
    #[verifier::allow_in_spec]
    pub fn ignores_quiet_nan(self) -> (r: bool)
        returns
            self is MaxNum || self is MinNum,
    {
        matches!(self, Extremum::MaxNum | Extremum::MinNum)
    }
}

/// What `FMAX`, `FMIN`, `FMAXNM` and `FMINNM` produce.
///
/// For the `NM` forms with no signalling NaN, exactly one quiet NaN operand
/// yields the other operand. Otherwise any NaN propagates as
/// [`nan::propagate`] does. Two zeroes give `+0` for a maximum unless both are
/// negative, and `-0` for a minimum if either is. Otherwise the larger (or
/// smaller) operand is returned unchanged, raising nothing.
pub open spec fn extremum_result(lhs: u64, rhs: u64, which: Extremum, format: FpFormat, control: FpControl) -> FpResult {
    let operands = seq![lhs, rhs];
    let lhs_nan = format.nan(lhs);
    let rhs_nan = format.nan(rhs);
    if which.ignores_quiet_nan() && !has_signalling(operands, format) && lhs_nan != rhs_nan {
        FpResult { bits: if lhs_nan { rhs } else { lhs }, raised: FpExceptions::with_flags(0) }
    } else if has_nan(operands, format) {
        FpResult {
            bits: nan::nan_result(operands[nan::first_nan(operands, format)], format, control),
            raised: invalid_if(has_signalling(operands, format)),
        }
    } else if (lhs == 0 || lhs == format.sign_weight()) && (rhs == 0 || rhs == format.sign_weight()) {
        let is_negative = if which.is_maximum() {
            sign_of(format, lhs) && sign_of(format, rhs)
        } else {
            sign_of(format, lhs) || sign_of(format, rhs)
        };
        FpResult { bits: format.zero(is_negative), raised: FpExceptions::with_flags(0) }
    } else {
        let is_lhs_greater = key_ordering(order_key(format, lhs), order_key(format, rhs)) == FpComparison::Greater;
        FpResult {
            bits: if is_lhs_greater == which.is_maximum() { lhs } else { rhs },
            raised: FpExceptions::with_flags(0),
        }
    }
}

/// `FMAX`, `FMIN`, `FMAXNM` and `FMINNM`.
pub fn extremum(lhs: u64, rhs: u64, which: Extremum, format: FpFormat, control: FpControl) -> (r: FpResult)
    ensures
        r == extremum_result(lhs, rhs, which, format, control),
{
    let operands = [lhs, rhs];
    assert(operands@ =~= seq![lhs, rhs]);
    match numeric_nan_case(lhs, rhs, which, format) {
        Some(result) => return result,
        None => {},
    }
    match nan::propagate(&operands, format, control) {
        Some(result) => return result,
        None => {},
    }

    // Zeroes of opposite sign are equal, so the comparison cannot pick between
    // them; the architecture takes the one the operation prefers.
    if format.is_zero(lhs) && format.is_zero(rhs) {
        let is_negative = if which.is_maximum() {
            format.is_negative(lhs) && format.is_negative(rhs)
        } else {
            format.is_negative(lhs) || format.is_negative(rhs)
        };
        return FpResult::exact(format.zero(is_negative));
    }

    let is_lhs_greater = match ordering(lhs, rhs, format) {
        FpComparison::Greater => true,
        _ => false,
    };
    let takes_lhs = is_lhs_greater == which.is_maximum();
    FpResult::exact(if takes_lhs { lhs } else { rhs })
}

/// The `FMAXNM`/`FMINNM` rule: exactly one quiet NaN operand returns the other.
///
/// A signalling NaN still propagates and still raises, and two NaNs fall
/// through to ordinary propagation.
fn numeric_nan_case(lhs: u64, rhs: u64, which: Extremum, format: FpFormat) -> (r: Option<FpResult>)
    ensures
        r is Some <==> which.ignores_quiet_nan() && !has_signalling(seq![lhs, rhs], format)
            && format.nan(lhs) != format.nan(rhs),
        r matches Some(result) ==> result == (FpResult {
            bits: if format.nan(lhs) { rhs } else { lhs },
            raised: FpExceptions::with_flags(0),
        }),
{
    if !which.ignores_quiet_nan() {
        return None;
    }
    let operands = [lhs, rhs];
    assert(operands@ =~= seq![lhs, rhs]);
    if nan::signalling_among(&operands, format) {
        return None;
    }

    let is_lhs_nan = format.is_nan(lhs);
    let is_rhs_nan = format.is_nan(rhs);
    if is_lhs_nan && !is_rhs_nan {
        Some(FpResult::exact(rhs))
    } else if !is_lhs_nan && is_rhs_nan {
        Some(FpResult::exact(lhs))
    } else {
        None
    }
}

/// The number of trailing significand bits' steps in `format`, `2^mantissa_bits`.
pub open spec fn fraction_span(format: FpFormat) -> int {
    format.mantissa_mask() + 1
}

/// The magnitude of an in-format value as an integer multiple of the smallest
/// subnormal: the significand for a subnormal or zero, and the significand
/// with its implicit bit, times `2^(exponent - 1)`, otherwise. Infinity lands
/// above every finite value.
pub open spec fn scaled_magnitude(format: FpFormat, bits: u64) -> int {
    let exponent = format.exponent_field(bits);
    let fraction = format.fraction_field(bits) as int;
    if exponent == 0 {
        fraction
    } else {
        (fraction_span(format) + fraction) * pow2((exponent - 1) as nat)
    }
}

/// The signed value of an in-format value, in the units of
/// [`scaled_magnitude`].
pub open spec fn scaled_value(format: FpFormat, bits: u64) -> int {
    if sign_of(format, bits) { -scaled_magnitude(format, bits) } else { scaled_magnitude(format, bits) }
}

/// The value an exponent and a fraction field spell, in the units of
/// [`scaled_magnitude`].
spec fn field_value(span: int, exponent: nat, fraction: int) -> int {
    if exponent == 0 { fraction } else { (span + fraction) * pow2((exponent - 1) as nat) }
}

/// Field values grow with the exponent, then with the fraction.
proof fn lemma_field_value_increases(span: int, e1: nat, f1: int, e2: nat, f2: int)
    requires
        span > 0,
        0 <= f1 < span,
        0 <= f2 < span,
        e1 < e2 || (e1 == e2 && f1 < f2),
    ensures
        field_value(span, e1, f1) < field_value(span, e2, f2),
    decreases e2 - e1,
{
    if e1 == e2 {
        if e1 > 0 {
            lemma_pow2_pos((e1 - 1) as nat);
            let p = pow2((e1 - 1) as nat) as int;
            assert((span + f1) * p < (span + f2) * p) by (nonlinear_arith)
                requires p > 0, f1 < f2;
        }
    } else if e1 + 1 == e2 {
        // The largest value of one binade is below the smallest of the next.
        let p = pow2(e1 as nat) as int;
        lemma_pow2_pos(e1 as nat);
        if e1 == 0 {
            assert(pow2(0) == 1) by { vstd::arithmetic::power2::lemma2_to64(); }
            assert(field_value(span, e2, f2) == (span + f2) * 1);
        } else {
            lemma_pow2_unfold(e1 as nat);
            let q = pow2((e1 - 1) as nat) as int;
            assert(p == 2 * q);
            assert((span + f1) * q < (span + f2) * p) by (nonlinear_arith)
                requires q > 0, p == 2 * q, f1 < span, f2 >= 0;
        }
    } else {
        lemma_field_value_increases(span, e1, f1, (e2 - 1) as nat, 0);
        lemma_field_value_increases(span, (e2 - 1) as nat, 0, e2, f2);
    }
}

/// The fields of an in-format value: its magnitude bits are the exponent
/// field times the fraction span plus the fraction field.
pub proof fn lemma_fields(format: FpFormat, bits: u64)
    requires
        bits <= format.mask(),
    ensures
        format.fraction_field(bits) < fraction_span(format),
        (if sign_of(format, bits) { bits - format.sign_weight() } else { bits as int })
            == format.exponent_field(bits) * fraction_span(format) + format.fraction_field(bits),
        format.exponent_field(bits) <= format.max_exponent(),
{
    match format {
        FpFormat::Half => {
            assert(bits <= 0xffff ==> (((bits / 0x400) % 0x20) * 0x400 + bits % 0x400 == (if (bits / 0x8000) % 2 == 1 { bits - 0x8000 } else { bits as int }))) by (nonlinear_arith);
        },
        FpFormat::Single => {
            assert(bits <= 0xffff_ffff ==> (((bits / 0x80_0000) % 0x100) * 0x80_0000 + bits % 0x80_0000 == (if (bits / 0x8000_0000) % 2 == 1 { bits - 0x8000_0000 } else { bits as int }))) by (nonlinear_arith);
        },
        FpFormat::Double => {
            assert((((bits / 0x10_0000_0000_0000) % 0x800) * 0x10_0000_0000_0000 + bits % 0x10_0000_0000_0000 == (if (bits / 0x8000_0000_0000_0000) % 2 == 1 { bits - 0x8000_0000_0000_0000 } else { bits as int }))) by (nonlinear_arith);
        },
    }
}

/// Key order is value order: for two in-format values that are not NaNs,
/// comparing their keys — what [`compare`] does — gives the same outcome as
/// comparing the values they encode, with the two zeroes equal.
pub proof fn lemma_key_order_is_value_order(format: FpFormat, a: u64, b: u64)
    requires
        a <= format.mask(),
        b <= format.mask(),
        !format.nan(a),
        !format.nan(b),
    ensures
        key_ordering(order_key(format, a), order_key(format, b))
            == key_ordering(scaled_value(format, a), scaled_value(format, b)),
{
    lemma_fields(format, a);
    lemma_fields(format, b);
    let span = fraction_span(format);
    let ea = format.exponent_field(a) as nat;
    let fa = format.fraction_field(a) as int;
    let eb = format.exponent_field(b) as nat;
    let fb = format.fraction_field(b) as int;
    assert(scaled_magnitude(format, a) == field_value(span, ea, fa));
    assert(scaled_magnitude(format, b) == field_value(span, eb, fb));
    let ma = ea * span + fa;
    let mb = eb * span + fb;
    // Magnitude bits order the field pairs lexicographically.
    assert(ma < mb ==> (ea < eb || (ea == eb && fa < fb))) by (nonlinear_arith)
        requires ma == ea * span + fa, mb == eb * span + fb, 0 <= fa < span, 0 <= fb < span;
    assert(ma == mb ==> (ea == eb && fa == fb)) by (nonlinear_arith)
        requires ma == ea * span + fa, mb == eb * span + fb, 0 <= fa < span, 0 <= fb < span;
    let va = field_value(span, ea, fa);
    let vb = field_value(span, eb, fb);
    if ma < mb {
        lemma_field_value_increases(span, ea, fa, eb, fb);
    }
    if mb < ma {
        assert(eb < ea || (ea == eb && fb < fa)) by (nonlinear_arith)
            requires ma == ea * span + fa, mb == eb * span + fb, 0 <= fa < span, 0 <= fb < span, mb < ma;
        lemma_field_value_increases(span, eb, fb, ea, fa);
    }
    assert(ma < mb ==> va < vb);
    assert(mb < ma ==> vb < va);
    assert(ma == mb ==> va == vb);
    assert(field_value(span, ea, fa) >= 0 && field_value(span, eb, fb) >= 0) by {
        if ea > 0 { lemma_pow2_pos((ea - 1) as nat); }
        if eb > 0 { lemma_pow2_pos((eb - 1) as nat); }
        assert(ea > 0 ==> (span + fa) * pow2((ea - 1) as nat) >= 0) by (nonlinear_arith)
            requires span + fa >= 0, pow2((ea - 1) as nat) > 0 || ea == 0;
        assert(eb > 0 ==> (span + fb) * pow2((eb - 1) as nat) >= 0) by (nonlinear_arith)
            requires span + fb >= 0, pow2((eb - 1) as nat) > 0 || eb == 0;
    }
    assert(field_value(span, ea, fa) == 0 <==> ma == 0) by {
        if ea == 0 {
            assert(ma == fa) by (nonlinear_arith) requires ma == ea * span + fa, ea == 0;
        } else {
            lemma_pow2_pos((ea - 1) as nat);
            assert((span + fa) * pow2((ea - 1) as nat) > 0) by (nonlinear_arith)
                requires span + fa > 0, pow2((ea - 1) as nat) > 0;
            assert(ma > 0) by (nonlinear_arith) requires ma == ea * span + fa, ea > 0, span > 0, fa >= 0;
        }
    }
    assert(field_value(span, eb, fb) == 0 <==> mb == 0) by {
        if eb == 0 {
            assert(mb == fb) by (nonlinear_arith) requires mb == eb * span + fb, eb == 0;
        } else {
            lemma_pow2_pos((eb - 1) as nat);
            assert((span + fb) * pow2((eb - 1) as nat) > 0) by (nonlinear_arith)
                requires span + fb > 0, pow2((eb - 1) as nat) > 0;
            assert(mb > 0) by (nonlinear_arith) requires mb == eb * span + fb, eb > 0, span > 0, fb >= 0;
        }
    }
    assert(order_key(format, a) == (if sign_of(format, a) { -ma } else { ma }));
    assert(order_key(format, b) == (if sign_of(format, b) { -mb } else { mb }));
    assert(scaled_value(format, a) == (if sign_of(format, a) { -va } else { va }));
    assert(scaled_value(format, b) == (if sign_of(format, b) { -vb } else { vb }));
    assert(ma >= 0 && mb >= 0) by (nonlinear_arith)
        requires ma == ea * span + fa, mb == eb * span + fb, fa >= 0, fb >= 0, span > 0, ea >= 0, eb >= 0;
}

/// The larger of two values.
pub open spec fn larger_of(a: int, b: int) -> int {
    if a >= b { a } else { b }
}

/// The smaller of two values.
pub open spec fn smaller_of(a: int, b: int) -> int {
    if a <= b { a } else { b }
}

/// Both zeroes of a format have the value zero.
proof fn lemma_zeroes_are_zero(format: FpFormat)
    ensures
        scaled_value(format, 0) == 0,
        scaled_value(format, format.sign_weight()) == 0,
        !format.nan(0),
        !format.nan(format.sign_weight()),
{
    lemma_sign_bit(format, 0);
    lemma_sign_bit(format, format.sign_weight());
    match format {
        FpFormat::Half => {
            assert(0x8000u64 <= 0xffffu64);
        },
        FpFormat::Single => {
            assert(0x8000_0000u64 <= 0xffff_ffffu64);
        },
        FpFormat::Double => {},
    }
    lemma_fields(format, 0);
    lemma_fields(format, format.sign_weight());
    let span = fraction_span(format);
    let (e0, f0) = (format.exponent_field(0), format.fraction_field(0));
    let (e1, f1) = (format.exponent_field(format.sign_weight()), format.fraction_field(format.sign_weight()));
    assert(e0 == 0 && f0 == 0) by (nonlinear_arith)
        requires 0 == e0 * span + f0, span > 0, e0 >= 0, f0 >= 0;
    assert(e1 == 0 && f1 == 0) by (nonlinear_arith)
        requires 0 == e1 * span + f1, span > 0, e1 >= 0, f1 >= 0;
}

/// The maximum and minimum pick by value: for two in-format operands, neither
/// a NaN, `FMAX` returns one of the two operands and it has the larger value,
/// and `FMIN` one with the smaller value; of two zeroes, the maximum is
/// negative only if both are and the minimum if either is; neither raises
/// anything; and `FMAXNM` and `FMINNM`, which differ only on NaNs, give
/// exactly what `FMAX` and `FMIN` give.
pub proof fn lemma_extremum_picks_by_value(lhs: u64, rhs: u64, format: FpFormat, control: FpControl)
    requires
        lhs <= format.mask(),
        rhs <= format.mask(),
        !format.nan(lhs),
        !format.nan(rhs),
    ensures
        ({
            let max = extremum_result(lhs, rhs, Extremum::Max, format, control);
            let min = extremum_result(lhs, rhs, Extremum::Min, format, control);
            let (a, b) = (scaled_value(format, lhs), scaled_value(format, rhs));
            &&& max.bits == lhs || max.bits == rhs
            &&& min.bits == lhs || min.bits == rhs
            &&& scaled_value(format, max.bits) == larger_of(a, b)
            &&& scaled_value(format, min.bits) == smaller_of(a, b)
            &&& (a == 0 && b == 0) ==> sign_of(format, max.bits) == (sign_of(format, lhs) && sign_of(format, rhs))
            &&& (a == 0 && b == 0) ==> sign_of(format, min.bits) == (sign_of(format, lhs) || sign_of(format, rhs))
            &&& max.raised == FpExceptions::with_flags(0)
            &&& min.raised == FpExceptions::with_flags(0)
            &&& extremum_result(lhs, rhs, Extremum::MaxNum, format, control) == max
            &&& extremum_result(lhs, rhs, Extremum::MinNum, format, control) == min
        }),
{
    let operands = seq![lhs, rhs];
    assert(!has_nan(operands, format)) by {
        assert forall|i: int| 0 <= i < operands.len() implies !format.nan(#[trigger] operands[i]) by {
            if i == 0 { assert(operands[0] == lhs); } else { assert(operands[1] == rhs); }
        }
    }
    assert(!has_signalling(operands, format)) by {
        assert forall|i: int| 0 <= i < operands.len() implies !format.signalling(#[trigger] operands[i]) by {
            if i == 0 { assert(operands[0] == lhs); } else { assert(operands[1] == rhs); }
        }
    }
    lemma_zeroes_are_zero(format);
    lemma_sign_bit(format, lhs);
    lemma_sign_bit(format, rhs);
    lemma_key_order_is_value_order(format, lhs, rhs);
    let (a, b) = (scaled_value(format, lhs), scaled_value(format, rhs));
    let lhs_zero = lhs == 0 || lhs == format.sign_weight();
    let rhs_zero = rhs == 0 || rhs == format.sign_weight();
    if lhs_zero && rhs_zero {
        assert(a == 0 && b == 0);
        lemma_sign_bit(format, format.zero(true));
        assert(format.zero(true) == format.sign_weight() && format.zero(false) == 0);
        assert(sign_of(format, 0) == false) by {
            assert(0u64 / format.sign_weight() == 0);
        }
    } else {
        assert(order_key(format, lhs) == 0 <==> lhs_zero) by {
            lemma_sign_bit(format, lhs);
        }
    }
}

/// Comparison orders by value: for two in-format operands, neither a NaN,
/// `FCMP` reports less, equal or greater exactly as the values they encode
/// compare (the two zeroes equal), and raises nothing; with a NaN operand it
/// reports unordered.
pub proof fn lemma_comparison_orders_by_value(lhs: u64, rhs: u64, format: FpFormat)
    requires
        lhs <= format.mask(),
        rhs <= format.mask(),
    ensures
        !format.nan(lhs) && !format.nan(rhs) ==> {
            let (a, b) = (scaled_value(format, lhs), scaled_value(format, rhs));
            &&& (comparison(lhs, rhs, format) == FpComparison::Less) == (a < b)
            &&& (comparison(lhs, rhs, format) == FpComparison::Equal) == (a == b)
            &&& (comparison(lhs, rhs, format) == FpComparison::Greater) == (a > b)
        },
        format.nan(lhs) || format.nan(rhs) ==> comparison(lhs, rhs, format) == FpComparison::Unordered,
{
    let operands = seq![lhs, rhs];
    if format.nan(lhs) {
        assert(operands[0] == lhs);
    } else if format.nan(rhs) {
        assert(operands[1] == rhs);
    } else {
        assert(!has_nan(operands, format)) by {
            assert forall|i: int| 0 <= i < operands.len() implies !format.nan(#[trigger] operands[i]) by {
                if i == 0 { assert(operands[0] == lhs); } else { assert(operands[1] == rhs); }
            }
        }
        lemma_key_order_is_value_order(format, lhs, rhs);
    }
}

} // verus!
