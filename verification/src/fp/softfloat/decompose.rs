//! Unpacking an IEEE value into sign, exponent and significand, and packing a
//! rounded result back.
//!
//! The intermediate form is deliberately wider than any supported format: the
//! arithmetic computes an exact significand and a "sticky" bit recording
//! whether anything was discarded below it, and rounding consults both. That is
//! what makes a fused multiply-add round once rather than twice.
use vstd::prelude::*;
use vstd::arithmetic::power2::{pow2, lemma2_to64, lemma_pow2_pos, lemma_pow2_unfold, lemma_pow2_adds, lemma_pow2_strictly_increases};
use crate::fp::control::{FpControl, FpExceptions, FPSR_IXC, FPSR_OFC, FPSR_UFC};
use crate::fp::operand::{FpFormat, FpResult, FpRounding};

verus! {

/// Extra bits kept below the significand while computing.
///
/// Three is the classic guard/round/sticky triple, which is sufficient for
/// correctly rounded add, multiply and divide.
pub const GUARD_BITS: u32 = 3;

/// A finite value pulled apart, with the significand left-aligned to include
/// [`GUARD_BITS`] of headroom.
///
/// The value is `significand * 2^(exponent - mantissa_bits - GUARD_BITS)`,
/// negated when `is_negative`.
#[derive(Debug, Clone, Copy, PartialEq, Eq, Structural)]
pub struct Unpacked {
    /// Sign bit.
    pub is_negative: bool,
    /// Unbiased exponent of the significand's most significant bit.
    pub exponent: i32,
    /// Significand, with the implicit bit made explicit and `GUARD_BITS` of
    /// zeroes appended.
    pub significand: u64,
}

impl Unpacked {
    /// An exact zero of the given sign.
    pub fn zero(is_negative: bool) -> (r: Unpacked)
        ensures
            r == (Unpacked { is_negative, exponent: 0, significand: 0 }),
    {
        Unpacked { is_negative, exponent: 0, significand: 0 }
    }

    /// Whether the significand is zero.
    pub fn is_zero(self) -> (r: bool)
        ensures
            r == (self.significand == 0),
    {
        self.significand == 0
    }
}

/// The significand value with only the implicit bit set,
/// `2^(mantissa_bits + GUARD_BITS)`.
#[verifier::allow_in_spec]
pub fn implicit_bit(format: FpFormat) -> (r: u64)
    returns
        (match format {
            FpFormat::Half => 0x2000u64,
            FpFormat::Single => 0x400_0000u64,
            FpFormat::Double => 0x80_0000_0000_0000u64,
        }),
{
    match format {
        FpFormat::Half => 0x2000,
        FpFormat::Single => 0x400_0000,
        FpFormat::Double => 0x80_0000_0000_0000,
    }
}

/// Mask covering a normalised significand plus its guard bits.
pub fn significand_mask(format: FpFormat) -> (r: u64)
    ensures
        r == 2 * implicit_bit(format) - 1,
{
    2 * implicit_bit(format) - 1
}

/// The implicit bit sits `GUARD_BITS` above the fraction field's span, and is
/// the power of two it is named for.
pub proof fn lemma_implicit_bit(format: FpFormat)
    ensures
        implicit_bit(format) == (format.mantissa_mask() + 1) * 8,
        implicit_bit(format) == pow2((format.mantissa_bits() + GUARD_BITS) as nat),
        format.mantissa_mask() + 1 == pow2(format.mantissa_bits() as nat),
{
    lemma2_to64();
    vstd::arithmetic::power2::lemma2_to64_rest();
}

/// How far a subnormal's non-zero fraction must move up for its leading bit to
/// reach the implicit bit's position, `span`.
pub open spec fn subnormal_shift(fraction: nat, span: nat) -> nat
    decreases (if fraction < span { span - fraction } else { 0 }),
{
    if fraction == 0 || fraction >= span {
        0
    } else {
        1 + subnormal_shift(2 * fraction, span)
    }
}

/// What [`unpack`] makes of `bits`.
///
/// A normal value exposes its implicit bit; a subnormal one is normalised, its
/// exponent lowered below the format's minimum by the shift that brings its
/// leading bit up to where a normal value's would be; a zero keeps only its
/// sign.
pub open spec fn unpacked_of(bits: u64, format: FpFormat) -> Unpacked {
    let is_negative = (bits / format.sign_weight()) % 2 == 1;
    let exponent = format.exponent_field(bits);
    let fraction = format.fraction_field(bits);
    let span = format.mantissa_mask() + 1;
    if exponent == 0 {
        if fraction == 0 {
            Unpacked { is_negative, exponent: 0, significand: 0 }
        } else {
            let shift = subnormal_shift(fraction as nat, span as nat);
            Unpacked {
                is_negative,
                exponent: (1 - format.exponent_bias() - shift) as i32,
                significand: (fraction * pow2(shift) * 8) as u64,
            }
        }
    } else {
        Unpacked {
            is_negative,
            exponent: (exponent - format.exponent_bias()) as i32,
            significand: ((fraction + span) * 8) as u64,
        }
    }
}

/// The shift normalises: it leaves the fraction between `span` and `2 * span`
/// and is no larger than the exponent of `span`.
pub proof fn lemma_subnormal_shift(fraction: nat, span: nat, bits: nat)
    requires
        0 < fraction < span,
        span == pow2(bits),
    ensures
        span <= fraction * pow2(subnormal_shift(fraction, span)) < 2 * span,
        subnormal_shift(fraction, span) <= bits,
    decreases span - fraction,
{
    lemma_pow2_pos(bits);
    lemma2_to64();
    let next = 2 * fraction;
    if next < span {
        lemma_subnormal_shift(next, span, bits);
        let s = subnormal_shift(next, span);
        assert(subnormal_shift(fraction, span) == s + 1);
        lemma_pow2_unfold(s + 1);
        assert(fraction * pow2(s + 1) == next * pow2(s)) by (nonlinear_arith)
            requires pow2(s + 1) == 2 * pow2(s), next == 2 * fraction;
        if s >= bits {
            if s > bits {
                lemma_pow2_strictly_increases(bits, s);
            }
            assert(fraction * pow2(s + 1) >= 2 * span) by (nonlinear_arith)
                requires fraction >= 1, pow2(s + 1) == 2 * pow2(s), pow2(s) >= span;
        }
    } else {
        assert(subnormal_shift(next, span) == 0);
        assert(subnormal_shift(fraction, span) == 1);
        if bits == 0 {
            assert(span == 1);
        }
    }
}

/// Splits a finite value into [`Unpacked`] form.
///
/// Subnormals are normalised: the exponent is reduced until the leading bit
/// sits where a normal value's would, so the arithmetic never special-cases
/// them again.
pub fn unpack(bits: u64, format: FpFormat) -> (r: Unpacked)
    ensures
        r == unpacked_of(bits, format),
        r.significand == 0 || implicit_bit(format) <= r.significand < 2 * implicit_bit(format),
        r.significand == 0 <==> (format.exponent_field(bits) == 0 && format.fraction_field(bits) == 0),
        -1100 < r.exponent < 1100,
{
    proof { lemma_implicit_bit(format); }
    let is_negative = format.is_negative(bits);
    let span = format.mantissa_mask() + 1;
    let raw_exponent = (bits / span) % (format.max_exponent() as u64 + 1);
    let mantissa = bits % span;

    if raw_exponent == 0 {
        if mantissa == 0 {
            return Unpacked::zero(is_negative);
        }
        // Subnormal: no implicit leading bit, and the exponent is fixed at the
        // minimum rather than being `raw_exponent - bias`. The fraction moves
        // up until its leading bit reaches the implicit-bit position, and the
        // exponent goes down by as much.
        let ghost span_bits = format.mantissa_bits() as nat;
        proof {
            lemma_subnormal_shift(mantissa as nat, span as nat, span_bits);
            lemma2_to64();
        }
        let mut scaled = mantissa;
        let mut shift: u32 = 0;
        while scaled < span
            invariant
                0 < mantissa < span,
                span == pow2(span_bits),
                span_bits <= 52,
                span <= 0x10_0000_0000_0000,
                scaled == mantissa * pow2(shift as nat),
                0 < scaled < 2 * span,
                subnormal_shift(mantissa as nat, span as nat) == shift + subnormal_shift(scaled as nat, span as nat),
                subnormal_shift(mantissa as nat, span as nat) <= span_bits,
            decreases span_bits - shift,
        {
            proof {
                lemma_pow2_unfold(shift as nat + 1);
                assert(mantissa * pow2(shift as nat + 1) == 2 * (mantissa * pow2(shift as nat))) by (nonlinear_arith)
                    requires pow2(shift as nat + 1) == 2 * pow2(shift as nat);
            }
            scaled = scaled * 2;
            shift = shift + 1;
        }
        return Unpacked {
            is_negative,
            exponent: 1 - format.exponent_bias() - shift as i32,
            significand: scaled * 8,
        };
    }

    Unpacked {
        is_negative,
        exponent: raw_exponent as i32 - format.exponent_bias(),
        significand: (mantissa + span) * 8,
    }
}

/// What rounding needs to know beyond the value itself.
#[derive(Debug, Clone, Copy, PartialEq, Eq, Structural)]
pub struct RoundingContext {
    /// Rounding mode in force.
    pub rounding: FpRounding,
    /// Whether bits were discarded below the guard bits.
    pub is_sticky: bool,
    /// FPCR, for flush-to-zero.
    pub control: FpControl,
}

/// The exceptions a set of flag bits names.
pub open spec fn raised(flags: u8) -> FpExceptions {
    FpExceptions::with_flags(flags)
}

/// A significand halved until it is below `2 * target`, with every bit
/// shifted out folded into the sticky flag.
pub open spec fn shrunk(significand: nat, exponent: int, is_sticky: bool, target: nat) -> (nat, int, bool)
    decreases significand,
{
    if target > 0 && significand >= 2 * target {
        shrunk(significand / 2, exponent + 1, is_sticky || significand % 2 == 1, target)
    } else {
        (significand, exponent, is_sticky)
    }
}

/// A non-zero significand doubled until it reaches `target`.
pub open spec fn grown(significand: nat, exponent: int, target: nat) -> (nat, int)
    decreases (if significand < target { target - significand } else { 0 }),
{
    if 0 < significand < target {
        grown(2 * significand, exponent - 1, target)
    } else {
        (significand, exponent)
    }
}

/// `value` with its leading bit moved to the implicit bit's position and the
/// exponent adjusted to match, and the sticky flag after the move.
pub open spec fn normalised(value: Unpacked, is_sticky: bool, format: FpFormat) -> (Unpacked, bool) {
    let target = implicit_bit(format) as nat;
    let (halved, raised_exponent, sticky) = shrunk(value.significand as nat, value.exponent as int, is_sticky, target);
    let (doubled, exponent) = grown(halved, raised_exponent, target);
    (Unpacked { is_negative: value.is_negative, exponent: exponent as i32, significand: doubled as u64 }, sticky)
}

/// Shifts the significand so its leading bit sits at the implicit-bit
/// position, folding anything shifted out into the sticky bit.
pub fn normalise(value: Unpacked, is_sticky: bool, format: FpFormat) -> (r: (Unpacked, bool))
    requires
        i32::MIN + 64 <= value.exponent <= i32::MAX - 64,
    ensures
        r == normalised(value, is_sticky, format),
        value.exponent - 56 <= r.0.exponent <= value.exponent + 50,
        value.significand != 0 ==> implicit_bit(format) <= r.0.significand < 2 * implicit_bit(format),
        value.significand == 0 ==> r.0.significand == 0,
{
    let ghost initial = value;
    let ghost sticky_at_entry = is_sticky;
    let mut value = value;
    let mut is_sticky = is_sticky;
    let target = implicit_bit(format);
    let ghost mut steps: nat = 0;
    proof { lemma2_to64(); }

    while value.significand >= target * 2
        invariant
            target == implicit_bit(format),
            value.is_negative == initial.is_negative,
            shrunk(value.significand as nat, value.exponent as int, is_sticky, target as nat)
                == shrunk(initial.significand as nat, initial.exponent as int, sticky_at_entry, target as nat),
            value.exponent == initial.exponent + steps,
            pow2(steps) * value.significand <= initial.significand,
            steps <= 50,
            initial.significand != 0 ==> value.significand != 0,
            i32::MIN + 64 <= initial.exponent <= i32::MAX - 64,
            target == 0x2000 || target == 0x400_0000 || target == 0x80_0000_0000_0000,
        decreases value.significand,
    {
        proof {
            lemma_pow2_unfold(steps + 1);
            if steps >= 50 {
                if steps > 50 {
                    lemma_pow2_strictly_increases(50, steps);
                }
                vstd::arithmetic::power2::lemma2_to64_rest();
                assert(pow2(steps) * value.significand >= 0x4_0000_0000_0000 * 0x4000) by (nonlinear_arith)
                    requires pow2(steps) >= 0x4_0000_0000_0000, value.significand >= 0x4000;
            }
            assert(pow2(steps + 1) * (value.significand / 2) <= pow2(steps) * value.significand) by (nonlinear_arith)
                requires pow2(steps + 1) == 2 * pow2(steps), pow2(steps) >= 0;
        }
        is_sticky = is_sticky || value.significand % 2 == 1;
        value.significand = value.significand / 2;
        value.exponent = value.exponent + 1;
        proof { steps = steps + 1; }
    }

    let ghost halved = value;
    let ghost mut doublings: nat = 0;
    while value.significand < target && value.significand != 0
        invariant
            target == implicit_bit(format),
            value.is_negative == initial.is_negative,
            grown(value.significand as nat, value.exponent as int, target as nat)
                == grown(halved.significand as nat, halved.exponent as int, target as nat),
            value.exponent == halved.exponent - doublings,
            value.significand == halved.significand * pow2(doublings),
            value.significand < 2 * target,
            halved.significand == 0 ==> value.significand == 0,
            halved.significand != 0 ==> value.significand != 0,
            initial.significand != 0 ==> halved.significand != 0,
            pow2(doublings) <= value.significand || value.significand == 0,
            doublings <= 55,
            initial.exponent <= halved.exponent <= initial.exponent + 50,
            i32::MIN + 64 <= initial.exponent <= i32::MAX - 64,
            target == 0x2000 || target == 0x400_0000 || target == 0x80_0000_0000_0000,
        decreases 55 - doublings,
    {
        proof {
            lemma_pow2_unfold(doublings + 1);
            if doublings >= 55 {
                if doublings > 55 {
                    lemma_pow2_strictly_increases(55, doublings);
                }
                vstd::arithmetic::power2::lemma2_to64_rest();
                assert(false);
            }
            assert(halved.significand * pow2(doublings + 1) == 2 * (halved.significand * pow2(doublings))) by (nonlinear_arith)
                requires pow2(doublings + 1) == 2 * pow2(doublings);
        }
        value.significand = value.significand * 2;
        value.exponent = value.exponent - 1;
        proof { doublings = doublings + 1; }
    }
    (value, is_sticky)
}

/// The number of bits `value` occupies: one more than the position of its
/// leading set bit, and zero for zero.
pub open spec fn bit_length(value: nat) -> nat
    decreases value,
{
    if value == 0 { 0 } else { 1 + bit_length(value / 2) }
}

/// A value's leading zeroes are what its bit length leaves of the width.
pub proof fn lemma_leading_zeros(value: u64)
    ensures
        vstd::std_specs::bits::u64_leading_zeros(value) == 64 - bit_length(value as nat),
    decreases value,
{
    reveal(vstd::std_specs::bits::u64_leading_zeros);
    if value != 0 {
        lemma_leading_zeros(value / 2);
    }
}

/// The rounding decision, given the three discarded guard bits (`discarded`,
/// below 8), whether anything non-zero lies below them, and the significand
/// whose lowest kept bit decides a tie to even.
pub open spec fn rounds_up(discarded: u64, is_sticky: bool, significand: u64, rounding: FpRounding, is_negative: bool) -> bool {
    let is_above_half = discarded > 4 || (discarded == 4 && is_sticky);
    let is_exactly_half = discarded == 4 && !is_sticky;
    match rounding {
        FpRounding::Nearest => is_above_half || (is_exactly_half && (significand / 8) % 2 == 1),
        FpRounding::NearestAway => discarded >= 4,
        FpRounding::Zero => false,
        FpRounding::Plus => !is_negative,
        FpRounding::Minus => is_negative,
        FpRounding::Odd => false,
    }
}

/// The rounding decision, given the discarded bits.
pub fn should_round_up(discarded: u64, is_sticky: bool, significand: u64, rounding: FpRounding, is_negative: bool) -> (r: bool)
    ensures
        r == rounds_up(discarded, is_sticky, significand, rounding, is_negative),
{
    let half: u64 = 4;
    let is_above_half = discarded > half || (discarded == half && is_sticky);
    let is_exactly_half = discarded == half && !is_sticky;

    match rounding {
        FpRounding::Nearest => is_above_half || (is_exactly_half && (significand / 8) % 2 == 1),
        FpRounding::NearestAway => discarded >= half,
        FpRounding::Zero => false,
        FpRounding::Plus => !is_negative,
        FpRounding::Minus => is_negative,
        // FCVTXN rounds ties to odd; it never reaches the generic packer,
        // which is why this arm mirrors truncation rather than guessing.
        FpRounding::Odd => false,
    }
}

/// A significand rounded at its guard bits: the guard bits cleared, and one
/// unit added when the mode says so. Inexact is raised exactly when a guard
/// bit or the sticky flag was set.
pub open spec fn guard_rounded(significand: u64, is_sticky: bool, rounding: FpRounding, is_negative: bool) -> (u64, FpExceptions) {
    let discarded = significand % 8;
    if discarded == 0 && !is_sticky {
        (significand, raised(0))
    } else {
        let increment: int = if rounds_up(discarded, is_sticky, significand, rounding, is_negative) { 8 } else { 0 };
        ((significand - discarded + increment) as u64, raised(FPSR_IXC))
    }
}

/// Rounds a significand at its guard bits.
pub fn round_at_guard(significand: u64, is_sticky: bool, rounding: FpRounding, is_negative: bool) -> (r: (u64, FpExceptions))
    requires
        significand <= u64::MAX - 8,
    ensures
        r == guard_rounded(significand, is_sticky, rounding, is_negative),
{
    let discarded = significand % 8;
    let is_inexact = discarded != 0 || is_sticky;
    if !is_inexact {
        return (significand, FpExceptions::none());
    }

    let increment = should_round_up(discarded, is_sticky, significand, rounding, is_negative);
    (significand - discarded + if increment { 8 } else { 0 }, FpExceptions::inexact())
}

/// A normalised significand rounded at its guard bits, and halved (raising
/// the exponent) if rounding carried into a new leading bit.
pub open spec fn rounded_significand(significand: u64, exponent: i32, is_sticky: bool, rounding: FpRounding, is_negative: bool) -> (u64, i32, FpExceptions) {
    let (rounded, inexact) = guard_rounded(significand, is_sticky, rounding, is_negative);
    if bit_length(rounded as nat) > bit_length(significand as nat) {
        ((rounded / 2) as u64, (exponent + 1) as i32, inexact)
    } else {
        (rounded, exponent, inexact)
    }
}

/// Rounds a normalised significand, returning it renormalised if rounding
/// carried into the next binade.
pub fn round_significand(significand: u64, exponent: i32, is_sticky: bool, rounding: FpRounding, is_negative: bool) -> (r: (u64, i32, FpExceptions))
    requires
        significand <= u64::MAX - 8,
        exponent < i32::MAX,
    ensures
        r == rounded_significand(significand, exponent, is_sticky, rounding, is_negative),
{
    let (rounded, inexact) = round_at_guard(significand, is_sticky, rounding, is_negative);

    // Rounding up can carry into the next binade.
    proof {
        lemma_leading_zeros(rounded);
        lemma_leading_zeros(significand);
    }
    if rounded.leading_zeros() < significand.leading_zeros() {
        return (rounded / 2, exponent + 1, inexact);
    }
    (rounded, exponent, inexact)
}

/// What a total underflow rounds to, which is not always zero: rounding away
/// from zero produces the smallest subnormal.
pub open spec fn zero_or_minimum(is_negative: bool, format: FpFormat, rounding: FpRounding) -> u64 {
    let is_away = match rounding {
        FpRounding::Plus => !is_negative,
        FpRounding::Minus => is_negative,
        _ => false,
    };
    (format.zero(is_negative) + if is_away { 1u64 } else { 0u64 }) as u64
}

/// What a total underflow rounds to.
pub fn round_to_zero_or_minimum(is_negative: bool, format: FpFormat, rounding: FpRounding) -> (r: u64)
    ensures
        r == zero_or_minimum(is_negative, format, rounding),
{
    let is_away = match rounding {
        FpRounding::Plus => !is_negative,
        FpRounding::Minus => is_negative,
        _ => false,
    };
    format.zero(is_negative) + if is_away { 1 } else { 0 }
}

/// What an overflow rounds to: infinity or the largest finite value, by mode
/// and sign, raising overflow and inexact.
pub open spec fn overflowed(is_negative: bool, format: FpFormat, rounding: FpRounding) -> FpResult {
    let goes_to_infinity = match rounding {
        FpRounding::Nearest | FpRounding::NearestAway => true,
        FpRounding::Zero => false,
        FpRounding::Plus => !is_negative,
        FpRounding::Minus => is_negative,
        FpRounding::Odd => false,
    };
    FpResult {
        bits: if goes_to_infinity { format.signed_infinity(is_negative) } else { (format.max_finite() + format.zero(is_negative)) as u64 },
        raised: raised(FPSR_OFC | FPSR_IXC),
    }
}

/// What an overflow rounds to, which depends on the mode and the sign.
pub fn overflow(is_negative: bool, format: FpFormat, rounding: FpRounding) -> (r: FpResult)
    ensures
        r == overflowed(is_negative, format, rounding),
{
    let goes_to_infinity = match rounding {
        FpRounding::Nearest | FpRounding::NearestAway => true,
        FpRounding::Zero => false,
        FpRounding::Plus => !is_negative,
        FpRounding::Minus => is_negative,
        FpRounding::Odd => false,
    };

    let bits = if goes_to_infinity {
        format.signed_infinity(is_negative)
    } else {
        format.max_finite() + format.zero(is_negative)
    };
    let flags = FpExceptions::overflow().union(FpExceptions::inexact());
    proof {
        flags.lemma_flags(FPSR_OFC);
        flags.lemma_flags(FPSR_IXC);
    }
    FpResult::raising(bits, flags)
}

/// Whether `control` flushes subnormals of `format`.
pub open spec fn flushes(format: FpFormat, control: FpControl) -> bool {
    match format {
        FpFormat::Half => control.is_flush_to_zero_fp16,
        FpFormat::Single | FpFormat::Double => control.is_flush_to_zero,
    }
}

/// `result`, or under flush-to-zero a zero of its sign in place of a
/// subnormal, raising underflow and inexact besides what it raised.
pub open spec fn flushed(result: FpResult, format: FpFormat, control: FpControl) -> FpResult {
    if !flushes(format, control) || !(format.exponent_field(result.bits) == 0 && format.fraction_field(result.bits) != 0) {
        result
    } else {
        FpResult {
            bits: format.zero((result.bits / format.sign_weight()) % 2 == 1),
            raised: raised((result.raised.flags() | FPSR_UFC) | FPSR_IXC),
        }
    }
}

/// Replaces a subnormal result with a zero when `FPCR.FZ` is set.
pub fn apply_flush_to_zero(result: FpResult, format: FpFormat, control: FpControl) -> (r: FpResult)
    ensures
        r == flushed(result, format, control),
{
    let is_flushing = match format {
        FpFormat::Half => control.is_flush_to_zero_fp16,
        FpFormat::Single | FpFormat::Double => control.is_flush_to_zero,
    };
    if !is_flushing || !format.is_subnormal(result.bits) {
        return result;
    }

    let flags = result.raised.union(FpExceptions::underflow());
    let all = flags.union(FpExceptions::inexact());
    proof {
        flags.lemma_flags(FPSR_UFC);
        flags.lemma_flags(FPSR_IXC);
        flags.lemma_flags(result.raised.flags() | FPSR_UFC);
    }
    FpResult::raising(format.zero(format.is_negative(result.bits)), all)
}

/// `2^shift`, for a shift within a `u64`.
pub fn power_of_two(shift: u32) -> (r: u64)
    requires
        shift < 64,
    ensures
        r == pow2(shift as nat),
{
    proof {
        vstd::bits::lemma_u64_pow2_no_overflow(shift as nat);
        vstd::bits::lemma_u64_shl_is_mul(1, shift as u64);
    }
    1u64 << shift
}

/// What [`pack_subnormal`] makes of a value below the format's minimum
/// exponent: shifted down to the minimum, the bits shifted out folded into the
/// sticky flag, rounded there, and encoded with a zero exponent field (a
/// significand that rounds up to the implicit bit thereby encodes the
/// smallest normal value). A value shifted out entirely becomes a zero, or
/// the smallest subnormal when rounding away from zero; either way underflow
/// and inexact are raised.
pub open spec fn subnormal_packed(value: Unpacked, is_sticky: bool, format: FpFormat, context: RoundingContext) -> FpResult {
    let minimum = 1 - format.exponent_bias();
    let shift = minimum - value.exponent;
    let width = format.mantissa_bits() + 1 + GUARD_BITS;
    if shift >= width {
        FpResult {
            bits: zero_or_minimum(value.is_negative, format, context.rounding),
            raised: raised(FPSR_UFC | FPSR_IXC),
        }
    } else {
        let sticky = is_sticky || (value.significand as nat) % pow2(shift as nat) != 0;
        let shifted = ((value.significand as nat) / pow2(shift as nat)) as u64;
        let (significand, inexact) = guard_rounded(shifted, sticky, context.rounding, value.is_negative);
        FpResult {
            bits: (format.zero(value.is_negative) + significand / 8) as u64,
            raised: if inexact.flags() == 0 { raised(0) } else { raised(inexact.flags() | FPSR_UFC) },
        }
    }
}

/// Encodes a value whose exponent is below the format's minimum.
pub fn pack_subnormal(value: Unpacked, is_sticky: bool, format: FpFormat, context: RoundingContext) -> (r: FpResult)
    requires
        value.exponent < 1 - format.exponent_bias(),
        value.exponent >= i32::MIN + 8,
        value.significand < 0x100_0000_0000_0000,
    ensures
        r == subnormal_packed(value, is_sticky, format, context),
{
    let minimum_exponent = 1 - format.exponent_bias();
    let shift = (minimum_exponent - value.exponent) as u32;
    let width = format.mantissa_bits() + 1 + GUARD_BITS;
    if shift >= width {
        // Everything is shifted out; the result is a zero, but a non-zero input
        // still underflowed inexactly.
        let flags = FpExceptions::underflow().union(FpExceptions::inexact());
        proof {
            flags.lemma_flags(FPSR_UFC);
            flags.lemma_flags(FPSR_IXC);
        }
        return FpResult::raising(round_to_zero_or_minimum(value.is_negative, format, context.rounding), flags);
    }

    let weight = power_of_two(shift);
    proof { lemma_pow2_pos(shift as nat); }
    let is_sticky = is_sticky || value.significand % weight != 0;
    let shifted = value.significand / weight;
    let (significand, inexact) = round_at_guard(shifted, is_sticky, context.rounding, value.is_negative);

    let mantissa = significand / 8;
    // Rounding a subnormal up can reach the smallest normal, which encodes
    // naturally: the implicit bit lands in the exponent field.
    proof { lemma_implicit_bit(format); }
    let bits = format.zero(value.is_negative) + mantissa;
    let flags = if inexact.is_empty() {
        FpExceptions::none()
    } else {
        let underflowed = inexact.union(FpExceptions::underflow());
        proof { inexact.lemma_flags(FPSR_UFC); }
        underflowed
    };
    FpResult::raising(bits, flags)
}

/// What [`pack_normalised`] makes of a normalised value: the subnormal
/// encoding below the minimum exponent; otherwise the value rounded at its
/// guard bits, then either the overflow result, if rounding left the exponent
/// above the format's range, or the sign, biased exponent and fraction.
pub open spec fn packed(value: Unpacked, is_sticky: bool, format: FpFormat, context: RoundingContext) -> FpResult {
    let minimum = 1 - format.exponent_bias();
    if value.exponent < minimum {
        subnormal_packed(value, is_sticky, format, context)
    } else {
        let (significand, exponent, inexact) =
            rounded_significand(value.significand, value.exponent, is_sticky, context.rounding, value.is_negative);
        if exponent > format.exponent_bias() {
            overflowed(value.is_negative, format, context.rounding)
        } else {
            let span = format.mantissa_mask() + 1;
            FpResult {
                bits: (format.zero(value.is_negative) + (exponent + format.exponent_bias()) * span + (significand / 8) as int % span) as u64,
                raised: inexact,
            }
        }
    }
}

/// Applies the rounding mode and encodes the result, handling subnormal and
/// overflow ranges.
pub fn pack_normalised(value: Unpacked, is_sticky: bool, format: FpFormat, context: RoundingContext) -> (r: FpResult)
    requires
        implicit_bit(format) <= value.significand < 2 * implicit_bit(format),
        i32::MIN + 8 <= value.exponent < i32::MAX,
    ensures
        r == packed(value, is_sticky, format, context),
{
    let minimum_exponent = 1 - format.exponent_bias();
    if value.exponent < minimum_exponent {
        return pack_subnormal(value, is_sticky, format, context);
    }

    let (significand, exponent, raised) = round_significand(
        value.significand,
        value.exponent,
        is_sticky,
        context.rounding,
        value.is_negative,
    );

    if exponent > format.exponent_bias() {
        return overflow(value.is_negative, format, context.rounding);
    }

    let span = format.mantissa_mask() + 1;
    let biased = (exponent + format.exponent_bias()) as u64;
    proof {
        assert(biased <= 2046);
        assert(biased * span <= 2046 * span) by (nonlinear_arith)
            requires biased <= 2046;
    }
    let bits = format.zero(value.is_negative) + biased * span + (significand / 8) % span;
    FpResult::raising(bits, raised)
}

/// What [`round_and_pack`] makes of a value: a zero of its sign when the
/// significand is zero, and otherwise the normalised value packed, then
/// flushed if `FPCR` asks for it.
pub open spec fn rounded_and_packed(value: Unpacked, format: FpFormat, context: RoundingContext) -> FpResult {
    if value.significand == 0 {
        FpResult { bits: format.zero(value.is_negative), raised: raised(0) }
    } else {
        let (normal, is_sticky) = normalised(value, context.is_sticky, format);
        flushed(packed(normal, is_sticky, format, context), format, context.control)
    }
}

/// Rounds an [`Unpacked`] result and packs it into `format`.
///
/// `context.is_sticky` says whether any non-zero bit was discarded below the
/// significand's guard bits — division and the wide multiply set it, exact
/// addition does not.
pub fn round_and_pack(value: Unpacked, format: FpFormat, context: RoundingContext) -> (r: FpResult)
    requires
        i32::MIN + 64 <= value.exponent <= i32::MAX - 64,
    ensures
        r == rounded_and_packed(value, format, context),
{
    if value.is_zero() {
        return FpResult::exact(format.zero(value.is_negative));
    }

    let (normal, is_sticky) = normalise(value, context.is_sticky, format);
    let packed = pack_normalised(normal, is_sticky, format, context);
    apply_flush_to_zero(packed, format, context.control)
}

/// Packing an unpacked value gives back what was unpacked: for every finite
/// in-format value, rounding its unpacked form in any mode, with nothing
/// discarded below it and flush-to-zero off for its format, reproduces its
/// bits and raises nothing.
#[verifier::spinoff_prover]
pub proof fn lemma_round_trip(bits: u64, format: FpFormat, rounding: FpRounding, control: FpControl)
    requires
        bits <= format.mask(),
        format.exponent_field(bits) != format.max_exponent(),
        !flushes(format, control),
    ensures
        rounded_and_packed(
            unpacked_of(bits, format),
            format,
            RoundingContext { rounding, is_sticky: false, control },
        ) == (FpResult { bits, raised: raised(0) }),
{
    let context = RoundingContext { rounding, is_sticky: false, control };
    let value = unpacked_of(bits, format);
    let exponent = format.exponent_field(bits);
    let fraction = format.fraction_field(bits);
    let span = format.mantissa_mask() + 1;
    let is_negative = (bits / format.sign_weight()) % 2 == 1;
    crate::fp::softfloat::compare::lemma_fields(format, bits);
    lemma_implicit_bit(format);
    lemma2_to64();
    let magnitude = if is_negative { bits - format.sign_weight() } else { bits as int };
    assert(magnitude == exponent * span + fraction);
    assert(bits == format.zero(is_negative) + magnitude);
    let target = implicit_bit(format) as nat;

    if exponent == 0 && fraction == 0 {
        assert(magnitude == 0) by (nonlinear_arith)
            requires magnitude == exponent * span + fraction, exponent == 0, fraction == 0;
    } else if exponent == 0 {
        let shift = subnormal_shift(fraction as nat, span as nat);
        lemma_subnormal_shift(fraction as nat, span as nat, format.mantissa_bits() as nat);
        let scaled = fraction * pow2(shift);
        assert(value.significand == scaled * 8);
        assert(shift >= 1);
        assert(target <= value.significand < 2 * target);
        assert(shrunk(value.significand as nat, value.exponent as int, false, target)
            == (value.significand as nat, value.exponent as int, false));
        assert(grown(value.significand as nat, value.exponent as int, target)
            == (value.significand as nat, value.exponent as int));
        assert(normalised(value, false, format) == (value, false));
        // Shifted back down to the minimum exponent, the fraction reappears
        // with nothing below it.
        lemma_pow2_pos(shift);
        assert(value.significand == (fraction * 8) * pow2(shift)) by (nonlinear_arith)
            requires value.significand == scaled * 8, scaled == fraction * pow2(shift);
        vstd::arithmetic::div_mod::lemma_mod_multiples_basic(fraction * 8, pow2(shift) as int);
        vstd::arithmetic::div_mod::lemma_div_multiples_vanish(fraction * 8, pow2(shift) as int);
        assert((value.significand as nat) % pow2(shift) == 0);
        assert((value.significand as nat) / pow2(shift) == fraction * 8);
        let shifted = (fraction * 8) as u64;
        assert(shifted % 8 == 0);
        let minimum = 1 - format.exponent_bias();
        assert(value.exponent == minimum - shift);
        assert(minimum - value.exponent == shift);
        assert(shift < format.mantissa_bits() + 1 + GUARD_BITS);
        assert(shifted / 8 == fraction);
        assert(magnitude == fraction) by (nonlinear_arith)
            requires magnitude == exponent * span + fraction, exponent == 0;
        assert(format.zero(is_negative) + fraction == bits);
        assert(guard_rounded(shifted, false, rounding, is_negative) == (shifted, raised(0)));
        FpExceptions::with_flags(0).lemma_flags(0);
        assert(packed(value, false, format, context) == (FpResult { bits, raised: raised(0) }));
    } else {
        assert(value.significand == (fraction + span) * 8);
        assert(target <= value.significand < 2 * target);
        assert(shrunk(value.significand as nat, value.exponent as int, false, target)
            == (value.significand as nat, value.exponent as int, false));
        assert(grown(value.significand as nat, value.exponent as int, target)
            == (value.significand as nat, value.exponent as int));
        assert(normalised(value, false, format) == (value, false));
        assert(value.significand % 8 == 0);
        assert(rounded_significand(value.significand, value.exponent, false, rounding, is_negative)
            == (value.significand, value.exponent, raised(0)));
        assert(value.significand / 8 == fraction + span);
        assert((fraction + span) % (span as int) == fraction) by (nonlinear_arith)
            requires 0 <= fraction < span;
        assert((value.significand / 8) as int % span == fraction);
        assert(packed(value, false, format, context) == (FpResult { bits, raised: raised(0) }));
    }
}

/// The fields of a value built from a sign, an exponent field and a
/// fraction field are those it was built from.
pub proof fn lemma_compose_fields(format: FpFormat, is_negative: bool, exponent: nat, fraction: nat)
    requires
        exponent <= format.max_exponent(),
        fraction <= format.mantissa_mask(),
    ensures
        ({
            let bits = format.zero(is_negative) + exponent * (format.mantissa_mask() + 1) + fraction;
            &&& bits <= format.mask()
            &&& format.exponent_field(bits as u64) == exponent
            &&& format.fraction_field(bits as u64) == fraction
            &&& ((bits as u64) / format.sign_weight()) % 2 == 1 <==> is_negative
        }),
{
    let s: int = if is_negative { 1 } else { 0 };
    match format {
        FpFormat::Half => {
            assert(format.zero(is_negative) == s * 0x8000);
            let bits = s * 0x8000 + exponent * 0x400 + fraction;
            assert(bits <= 0xffff && (bits / 0x400) % 0x20 == exponent && bits % 0x400 == fraction
                && (bits / 0x8000) % 2 == s) by (nonlinear_arith)
                requires exponent <= 0x1f, fraction <= 0x3ff, 0 <= s <= 1, bits == s * 0x8000 + exponent * 0x400 + fraction;
        },
        FpFormat::Single => {
            assert(format.zero(is_negative) == s * 0x8000_0000);
            let bits = s * 0x8000_0000 + exponent * 0x80_0000 + fraction;
            assert(bits <= 0xffff_ffff && (bits / 0x80_0000) % 0x100 == exponent && bits % 0x80_0000 == fraction
                && (bits / 0x8000_0000) % 2 == s) by (nonlinear_arith)
                requires exponent <= 0xff, fraction <= 0x7f_ffff, 0 <= s <= 1, bits == s * 0x8000_0000 + exponent * 0x80_0000 + fraction;
        },
        FpFormat::Double => {
            assert(format.zero(is_negative) == s * 0x8000_0000_0000_0000);
            let bits = s * 0x8000_0000_0000_0000 + exponent * 0x10_0000_0000_0000 + fraction;
            assert(bits <= 0xffff_ffff_ffff_ffff && (bits / 0x10_0000_0000_0000) % 0x800 == exponent
                && bits % 0x10_0000_0000_0000 == fraction && (bits / 0x8000_0000_0000_0000) % 2 == s) by (nonlinear_arith)
                requires exponent <= 0x7ff, fraction <= 0xf_ffff_ffff_ffff, 0 <= s <= 1,
                    bits == s * 0x8000_0000_0000_0000 + exponent * 0x10_0000_0000_0000 + fraction;
        },
    }
}

/// The rounding that moves a magnitude away from zero: toward plus infinity
/// for a positive value, toward minus infinity for a negative one.
pub open spec fn away_from_zero(is_negative: bool) -> FpRounding {
    if is_negative { FpRounding::Minus } else { FpRounding::Plus }
}

/// The directed rounding that moves a magnitude toward zero.
pub open spec fn toward_zero(is_negative: bool) -> FpRounding {
    if is_negative { FpRounding::Plus } else { FpRounding::Minus }
}

/// A value between `2^k` and `2^(k + 1)` occupies `k + 1` bits.
proof fn lemma_bit_length_between(value: nat, k: nat)
    requires
        pow2(k) <= value < pow2(k + 1),
    ensures
        bit_length(value) == k + 1,
    decreases k,
{
    lemma2_to64();
    lemma_pow2_unfold(k + 1);
    if k == 0 {
        assert(value == 1);
        assert(bit_length(0) == 0);
    } else {
        lemma_pow2_unfold(k);
        lemma_bit_length_between(value / 2, (k - 1) as nat);
    }
}

/// The facts about the significand widths of a format that the rounding laws
/// use.
proof fn lemma_format_constants(format: FpFormat)
    ensures
        implicit_bit(format) == 8 * (format.mantissa_mask() + 1),
        implicit_bit(format) == pow2((format.mantissa_bits() + 3) as nat),
        format.infinity() == format.max_exponent() * (format.mantissa_mask() + 1),
        format.max_exponent() == 2 * format.exponent_bias() + 1,
        format.mantissa_bits() + 3 <= 55,
{
    lemma_implicit_bit(format);
    format.lemma_infinity_fields();
}

/// Two results of directed rounding: exact together, equal when exact, and
/// otherwise adjacent encodings, the first one above.
pub open spec fn adjacent(away: FpResult, toward: FpResult) -> bool {
    &&& (away.raised == raised(0)) == (toward.raised == raised(0))
    &&& away.raised == raised(0) ==> away == toward
    &&& away.raised != raised(0) ==> away.bits == toward.bits + 1
}

/// The two directed roundings of a value, in the normal range.
pub open spec fn directed_pair(value: Unpacked, is_sticky: bool, format: FpFormat, control: FpControl) -> (FpResult, FpResult) {
    (
        packed(value, is_sticky, format, RoundingContext { rounding: away_from_zero(value.is_negative), is_sticky, control }),
        packed(value, is_sticky, format, RoundingContext { rounding: toward_zero(value.is_negative), is_sticky, control }),
    )
}

/// What the normal-range cases of the directed-rounding law share.
pub open spec fn normal_case(value: Unpacked, format: FpFormat) -> bool {
    &&& implicit_bit(format) <= value.significand < 2 * implicit_bit(format)
    &&& 1 - format.exponent_bias() <= value.exponent < i32::MAX
}

/// Beyond the range, toward zero stops at the largest finite value and away
/// from zero reaches infinity.
proof fn lemma_adjacent_beyond_range(value: Unpacked, is_sticky: bool, format: FpFormat, control: FpControl)
    requires
        normal_case(value, format),
        value.exponent > format.exponent_bias(),
    ensures
        adjacent(directed_pair(value, is_sticky, format, control).0, directed_pair(value, is_sticky, format, control).1),
{
    lemma_format_constants(format);
    lemma2_to64();
    let k = (format.mantissa_bits() + 3) as nat;
    lemma_pow2_unfold(k + 1);
    let sig = value.significand;
    let neg = value.is_negative;
    let floor = (sig - sig % 8) as nat;
    lemma_bit_length_between(sig as nat, k);
    lemma_bit_length_between(floor, k);
    FpExceptions::with_flags(0).lemma_flags(0);
    FpExceptions::with_flags(0).lemma_flags(FPSR_OFC | FPSR_IXC);
    assert((4u8 | 16u8) != 0u8) by (bit_vector);
    assert(rounded_significand(sig, value.exponent, is_sticky, toward_zero(neg), neg).1 == value.exponent);
    assert(format.max_finite() == format.infinity() - 1);
}

/// With nothing to round, both modes keep the significand.
proof fn lemma_adjacent_exact(value: Unpacked, is_sticky: bool, format: FpFormat, control: FpControl)
    requires
        normal_case(value, format),
        value.exponent <= format.exponent_bias(),
        value.significand % 8 == 0,
        !is_sticky,
    ensures
        adjacent(directed_pair(value, is_sticky, format, control).0, directed_pair(value, is_sticky, format, control).1),
{
    let sig = value.significand;
    let neg = value.is_negative;
    assert(rounded_significand(sig, value.exponent, is_sticky, away_from_zero(neg), neg) == (sig, value.exponent, raised(0)));
    assert(rounded_significand(sig, value.exponent, is_sticky, toward_zero(neg), neg) == (sig, value.exponent, raised(0)));
}

/// Rounding up within the binade: the fraction field goes up by one.
proof fn lemma_adjacent_within_binade(value: Unpacked, is_sticky: bool, format: FpFormat, control: FpControl)
    requires
        normal_case(value, format),
        value.exponent <= format.exponent_bias(),
        value.significand % 8 != 0 || is_sticky,
        value.significand - value.significand % 8 + 8 < 2 * implicit_bit(format),
    ensures
        adjacent(directed_pair(value, is_sticky, format, control).0, directed_pair(value, is_sticky, format, control).1),
{
    lemma_format_constants(format);
    lemma2_to64();
    let t = implicit_bit(format) as nat;
    let k = (format.mantissa_bits() + 3) as nat;
    lemma_pow2_unfold(k + 1);
    let sig = value.significand;
    let e = value.exponent;
    let neg = value.is_negative;
    let span = (format.mantissa_mask() + 1) as int;
    let bias = format.exponent_bias() as int;
    let d = sig % 8;
    let floor = (sig - d) as nat;
    FpExceptions::with_flags(0).lemma_flags(0);
    FpExceptions::with_flags(0).lemma_flags(FPSR_IXC);
    assert(rounds_up(d, is_sticky, sig, away_from_zero(neg), neg));
    assert(!rounds_up(d, is_sticky, sig, toward_zero(neg), neg));
    assert(t <= floor < 2 * t);
    lemma_bit_length_between(sig as nat, k);
    lemma_bit_length_between(floor, k);
    lemma_bit_length_between((floor + 8) as nat, k);
    assert(rounded_significand(sig, e, is_sticky, toward_zero(neg), neg) == (floor as u64, e, raised(FPSR_IXC)));
    assert(rounded_significand(sig, e, is_sticky, away_from_zero(neg), neg) == ((floor + 8) as u64, e, raised(FPSR_IXC)));
    assert(floor / 8 >= span && floor / 8 < 2 * span);
    assert((floor + 8) / 8 == floor / 8 + 1);
    assert(((floor + 8) / 8) as int % span == (floor / 8) as int % span + 1) by (nonlinear_arith)
        requires span <= floor / 8, floor / 8 + 1 < 2 * span, (floor + 8) / 8 == floor / 8 + 1;
    lemma_compose_fields(format, neg, (e + bias) as nat, (((floor + 8) / 8) as int % span) as nat);
    lemma_compose_fields(format, neg, (e + bias) as nat, ((floor / 8) as int % span) as nat);
}

/// Rounding up out of the binade: the significand carries into the next
/// exponent, which is the next encoding, or infinity past the largest finite
/// value.
#[verifier::rlimit(80)]
#[verifier::spinoff_prover]
proof fn lemma_adjacent_carry(value: Unpacked, is_sticky: bool, format: FpFormat, control: FpControl)
    requires
        normal_case(value, format),
        value.exponent <= format.exponent_bias(),
        value.significand % 8 != 0 || is_sticky,
        value.significand - value.significand % 8 + 8 >= 2 * implicit_bit(format),
    ensures
        adjacent(directed_pair(value, is_sticky, format, control).0, directed_pair(value, is_sticky, format, control).1),
{
    lemma_format_constants(format);
    lemma2_to64();
    let t = implicit_bit(format) as nat;
    let k = (format.mantissa_bits() + 3) as nat;
    lemma_pow2_unfold(k + 1);
    lemma_pow2_unfold(k + 2);
    let sig = value.significand;
    let e = value.exponent;
    let neg = value.is_negative;
    let span = (format.mantissa_mask() + 1) as int;
    let bias = format.exponent_bias() as int;
    let d = sig % 8;
    let floor = (sig - d) as nat;
    FpExceptions::with_flags(0).lemma_flags(0);
    FpExceptions::with_flags(0).lemma_flags(FPSR_IXC);
    FpExceptions::with_flags(0).lemma_flags(FPSR_OFC | FPSR_IXC);
    assert((4u8 | 16u8) != 0u8) by (bit_vector);
    assert(rounds_up(d, is_sticky, sig, away_from_zero(neg), neg));
    assert(!rounds_up(d, is_sticky, sig, toward_zero(neg), neg));
    assert(t <= floor < 2 * t);
    assert(floor + 8 == 2 * t);
    lemma_bit_length_between(sig as nat, k);
    lemma_bit_length_between(floor, k);
    lemma_bit_length_between((2 * t) as nat, k + 1);
    assert(rounded_significand(sig, e, is_sticky, toward_zero(neg), neg) == (floor as u64, e, raised(FPSR_IXC)));
    assert(rounded_significand(sig, e, is_sticky, away_from_zero(neg), neg) == (t as u64, (e + 1) as i32, raised(FPSR_IXC)));
    assert(floor / 8 == 2 * span - 1);
    assert((floor / 8) as int % span == span - 1) by (nonlinear_arith)
        requires floor / 8 == 2 * span - 1, span > 0;
    assert((t / 8) as int % span == 0) by (nonlinear_arith)
        requires t / 8 == span, span > 0;
    lemma_compose_fields(format, neg, (e + bias) as nat, (span - 1) as nat);
    let toward_bits = format.zero(neg) + (e + bias) * span + (span - 1);
    let away_context = RoundingContext { rounding: away_from_zero(neg), is_sticky, control };
    let toward_context = RoundingContext { rounding: toward_zero(neg), is_sticky, control };
    assert(packed(value, is_sticky, format, toward_context)
        == FpResult { bits: toward_bits as u64, raised: raised(FPSR_IXC) });
    if e + 1 <= bias {
        assert((e + 1 + bias) * span == (e + bias) * span + span) by (nonlinear_arith);
        lemma_compose_fields(format, neg, (e + 1 + bias) as nat, 0);
        assert(packed(value, is_sticky, format, away_context)
            == FpResult { bits: (toward_bits + 1) as u64, raised: raised(FPSR_IXC) });
    } else {
        assert(e == bias);
        assert((e + bias) * span + span - 1 == format.infinity() - 1) by (nonlinear_arith)
            requires e == bias, format.infinity() == format.max_exponent() * span, format.max_exponent() == 2 * bias + 1;
        assert(packed(value, is_sticky, format, away_context) == overflowed(neg, format, away_from_zero(neg)));
        assert(overflowed(neg, format, away_from_zero(neg)).bits == format.signed_infinity(neg));
        assert(format.signed_infinity(neg) == toward_bits + 1);
    }
}

/// In the normal range, the two directed roundings agree when nothing is
/// rounded away and are otherwise adjacent encodings.
proof fn lemma_packed_normal_adjacent(value: Unpacked, is_sticky: bool, format: FpFormat, control: FpControl)
    requires
        normal_case(value, format),
    ensures
        adjacent(directed_pair(value, is_sticky, format, control).0, directed_pair(value, is_sticky, format, control).1),
{
    if value.exponent > format.exponent_bias() {
        lemma_adjacent_beyond_range(value, is_sticky, format, control);
    } else if value.significand % 8 == 0 && !is_sticky {
        lemma_adjacent_exact(value, is_sticky, format, control);
    } else if value.significand - value.significand % 8 + 8 < 2 * implicit_bit(format) {
        lemma_adjacent_within_binade(value, is_sticky, format, control);
    } else {
        lemma_adjacent_carry(value, is_sticky, format, control);
    }
}

/// Halving stops below twice the target, keeps a non-zero significand
/// non-zero, and takes at most `steps` halvings when the significand is below
/// `2 * target * 2^steps`.
proof fn lemma_shrunk_facts(significand: nat, exponent: int, is_sticky: bool, target: nat, steps: nat)
    requires
        target > 0,
        0 < significand < 2 * target * pow2(steps),
    ensures
        ({
            let (halved, raised_exponent, _) = shrunk(significand, exponent, is_sticky, target);
            &&& 0 < halved < 2 * target
            &&& exponent <= raised_exponent <= exponent + steps
        }),
    decreases significand,
{
    if significand >= 2 * target {
        lemma_pow2_pos(steps);
        if steps == 0 {
            assert(pow2(0) == 1) by { lemma2_to64(); }
            assert(2 * target * pow2(steps) == 2 * target);
        } else {
            lemma_pow2_unfold(steps);
            let rest = (steps - 1) as nat;
            assert(significand / 2 < 2 * target * pow2(rest)) by (nonlinear_arith)
                requires significand < 2 * target * pow2(steps), pow2(steps) == 2 * pow2(rest);
            lemma_shrunk_facts(significand / 2, exponent + 1, is_sticky || significand % 2 == 1, target, rest);
        }
    }
}

/// Doubling a non-zero significand below twice the target stops within the
/// target's binade, after at most `steps` doublings when `steps` suffice.
proof fn lemma_grown_facts(significand: nat, exponent: int, target: nat, steps: nat)
    requires
        0 < significand < 2 * target,
        significand * pow2(steps) >= target,
    ensures
        ({
            let (doubled, lowered_exponent) = grown(significand, exponent, target);
            &&& target <= doubled < 2 * target
            &&& exponent - steps <= lowered_exponent <= exponent
        }),
    decreases steps,
{
    if significand < target {
        lemma2_to64();
        if steps == 0 {
            assert(significand * pow2(0) == significand);
        } else {
            lemma_pow2_unfold(steps);
            let rest = (steps - 1) as nat;
            assert((2 * significand) * pow2(rest) == significand * pow2(steps)) by (nonlinear_arith)
                requires pow2(steps) == 2 * pow2(rest);
            lemma_grown_facts(2 * significand, exponent - 1, target, rest);
        }
    }
}

/// A non-zero value normalises into the implicit bit's binade, with its sign,
/// and its exponent moves by at most 50 up or 55 down.
proof fn lemma_normalised_facts(value: Unpacked, is_sticky: bool, format: FpFormat)
    requires
        value.significand != 0,
        i32::MIN + 64 <= value.exponent <= i32::MAX - 64,
    ensures
        ({
            let normal = normalised(value, is_sticky, format).0;
            &&& implicit_bit(format) <= normal.significand < 2 * implicit_bit(format)
            &&& normal.is_negative == value.is_negative
            &&& value.exponent - 55 <= normal.exponent <= value.exponent + 50
        }),
{
    lemma_format_constants(format);
    lemma2_to64();
    vstd::arithmetic::power2::lemma2_to64_rest();
    let target = implicit_bit(format) as nat;
    assert(value.significand < 2 * target * pow2(50)) by (nonlinear_arith)
        requires value.significand < 0x1_0000_0000_0000_0000, pow2(50) == 0x4_0000_0000_0000, target >= 0x2000;
    lemma_shrunk_facts(value.significand as nat, value.exponent as int, is_sticky, target, 50);
    let (halved, raised_exponent, _) = shrunk(value.significand as nat, value.exponent as int, is_sticky, target);
    if target < 0x80_0000_0000_0000 {
        lemma_pow2_strictly_increases((format.mantissa_bits() + 3) as nat, 55);
    }
    assert(halved * pow2(55) >= target) by (nonlinear_arith)
        requires halved >= 1, pow2(55) == 0x80_0000_0000_0000, target <= 0x80_0000_0000_0000;
    lemma_grown_facts(halved, raised_exponent, target, 55);
}

/// Below the normal range, the two directed roundings agree when nothing is
/// rounded away and are otherwise adjacent encodings.
#[verifier::rlimit(40)]
proof fn lemma_subnormal_adjacent(value: Unpacked, is_sticky: bool, format: FpFormat, control: FpControl)
    requires
        implicit_bit(format) <= value.significand < 2 * implicit_bit(format),
        value.exponent < 1 - format.exponent_bias(),
    ensures
        adjacent(directed_pair(value, is_sticky, format, control).0, directed_pair(value, is_sticky, format, control).1),
{
    lemma_format_constants(format);
    lemma2_to64();
    let neg = value.is_negative;
    let away_context = RoundingContext { rounding: away_from_zero(neg), is_sticky, control };
    let toward_context = RoundingContext { rounding: toward_zero(neg), is_sticky, control };
    let minimum = 1 - format.exponent_bias();
    let shift = minimum - value.exponent;
    let width = format.mantissa_bits() + 1 + GUARD_BITS;
    FpExceptions::with_flags(0).lemma_flags(0);
    FpExceptions::with_flags(0).lemma_flags(FPSR_IXC);
    FpExceptions::with_flags(0).lemma_flags(FPSR_UFC | FPSR_IXC);
    FpExceptions::with_flags(0).lemma_flags(FPSR_IXC | FPSR_UFC);
    assert((8u8 | 16u8) != 0u8 && (16u8 | 8u8) != 0u8) by (bit_vector);
    assert(packed(value, is_sticky, format, away_context) == subnormal_packed(value, is_sticky, format, away_context));
    assert(packed(value, is_sticky, format, toward_context) == subnormal_packed(value, is_sticky, format, toward_context));
    if shift >= width {
        assert(zero_or_minimum(neg, format, away_from_zero(neg)) == format.zero(neg) + 1);
        assert(zero_or_minimum(neg, format, toward_zero(neg)) == format.zero(neg));
    } else {
        let weight = pow2(shift as nat);
        lemma_pow2_pos(shift as nat);
        let sticky = is_sticky || (value.significand as nat) % weight != 0;
        let shifted = ((value.significand as nat) / weight) as u64;
        assert(shifted <= value.significand) by {
            vstd::arithmetic::div_mod::lemma_div_is_ordered_by_denominator(value.significand as int, 1, weight as int);
        }
        let d = shifted % 8;
        if d == 0 && !sticky {
            assert(guard_rounded(shifted, sticky, away_from_zero(neg), neg) == (shifted, raised(0)));
            assert(guard_rounded(shifted, sticky, toward_zero(neg), neg) == (shifted, raised(0)));
        } else {
            let floor = (shifted - d) as u64;
            assert(guard_rounded(shifted, sticky, away_from_zero(neg), neg) == ((floor + 8) as u64, raised(FPSR_IXC)));
            assert(guard_rounded(shifted, sticky, toward_zero(neg), neg) == (floor, raised(FPSR_IXC)));
            assert((floor + 8) / 8 == floor / 8 + 1);
        }
    }
}

/// Directed rounding is adjacent: for every non-zero unpacked value, with
/// flush-to-zero off for its format, rounding toward zero and rounding away
/// from zero (toward minus and plus infinity, by sign) are exact together,
/// give the same result when exact, and otherwise give adjacent encodings,
/// the one away from zero above.
pub proof fn lemma_directed_rounding_adjacent(value: Unpacked, is_sticky: bool, format: FpFormat, control: FpControl)
    requires
        value.significand != 0,
        i32::MIN + 64 <= value.exponent <= i32::MAX - 64,
        !flushes(format, control),
    ensures
        adjacent(
            rounded_and_packed(value, format, RoundingContext { rounding: away_from_zero(value.is_negative), is_sticky, control }),
            rounded_and_packed(value, format, RoundingContext { rounding: toward_zero(value.is_negative), is_sticky, control }),
        ),
{
    lemma_normalised_facts(value, is_sticky, format);
    let (normal, sticky) = normalised(value, is_sticky, format);
    if normal.exponent < 1 - format.exponent_bias() {
        lemma_subnormal_adjacent(normal, sticky, format, control);
    } else {
        lemma_packed_normal_adjacent(normal, sticky, format, control);
    }
}

/// The directed rounding a mode agrees with on one value: away from zero
/// when the mode rounds its guard bits up, toward zero otherwise.
pub open spec fn decision_mode(significand: u64, is_sticky: bool, rounding: FpRounding, is_negative: bool) -> FpRounding {
    if rounds_up(significand % 8, is_sticky, significand, rounding, is_negative) {
        away_from_zero(is_negative)
    } else {
        toward_zero(is_negative)
    }
}

/// Rounding at the guard bits depends on the mode only through whether it
/// rounds up.
proof fn lemma_guard_rounded_by_decision(significand: u64, is_sticky: bool, rounding: FpRounding, is_negative: bool)
    ensures
        guard_rounded(significand, is_sticky, rounding, is_negative)
            == guard_rounded(significand, is_sticky, decision_mode(significand, is_sticky, rounding, is_negative), is_negative),
{
}

/// In the normal range, every mode's result is one of the two directed
/// results.
#[verifier::rlimit(40)]
proof fn lemma_packed_normal_neighbour(value: Unpacked, is_sticky: bool, format: FpFormat, control: FpControl, rounding: FpRounding)
    requires
        normal_case(value, format),
    ensures
        ({
            let result = packed(value, is_sticky, format, RoundingContext { rounding, is_sticky, control });
            let (away, toward) = directed_pair(value, is_sticky, format, control);
            &&& result == away || result == toward
            &&& rounding == FpRounding::Zero ==> result == toward
        }),
{
    let sig = value.significand;
    let e = value.exponent;
    let neg = value.is_negative;
    let pick = decision_mode(sig, is_sticky, rounding, neg);
    lemma_guard_rounded_by_decision(sig, is_sticky, rounding, neg);
    assert(rounded_significand(sig, e, is_sticky, rounding, neg) == rounded_significand(sig, e, is_sticky, pick, neg));
    let context = RoundingContext { rounding, is_sticky, control };
    let pick_context = RoundingContext { rounding: pick, is_sticky, control };
    let rounded_exponent = rounded_significand(sig, e, is_sticky, rounding, neg).1;
    if rounded_exponent > format.exponent_bias() {
        if e > format.exponent_bias() {
            // Both directed results overflow too, one to each side.
            assert(rounded_significand(sig, e, is_sticky, away_from_zero(neg), neg).1 >= e) by {
                lemma_directed_exponents(value, is_sticky, format);
            }
            assert(rounded_significand(sig, e, is_sticky, toward_zero(neg), neg).1 >= e) by {
                lemma_directed_exponents(value, is_sticky, format);
            }
        } else {
            // Only a mode that rounds up carries past the range, and every
            // such mode goes to infinity, as rounding away from zero does.
            lemma_directed_exponents(value, is_sticky, format);
            assert(pick == away_from_zero(neg));
        }
    } else {
        assert(packed(value, is_sticky, format, context) == packed(value, is_sticky, format, pick_context));
    }
}

/// Rounding at the guard bits never lowers the exponent, and toward zero it
/// never raises it.
proof fn lemma_directed_exponents(value: Unpacked, is_sticky: bool, format: FpFormat)
    requires
        normal_case(value, format),
    ensures
        rounded_significand(value.significand, value.exponent, is_sticky, away_from_zero(value.is_negative), value.is_negative).1
            >= value.exponent,
        rounded_significand(value.significand, value.exponent, is_sticky, toward_zero(value.is_negative), value.is_negative).1
            == value.exponent,
        forall|rounding: FpRounding| rounded_significand(value.significand, value.exponent, is_sticky, rounding, value.is_negative).1
            > value.exponent ==> rounds_up(value.significand % 8, is_sticky, value.significand, rounding, value.is_negative),
{
    lemma_format_constants(format);
    lemma2_to64();
    let k = (format.mantissa_bits() + 3) as nat;
    lemma_pow2_unfold(k + 1);
    let sig = value.significand;
    let floor = (sig - sig % 8) as nat;
    lemma_bit_length_between(sig as nat, k);
    lemma_bit_length_between(floor, k);
}

/// Below the normal range, every mode's result is one of the two directed
/// results.
#[verifier::rlimit(40)]
proof fn lemma_subnormal_neighbour(value: Unpacked, is_sticky: bool, format: FpFormat, control: FpControl, rounding: FpRounding)
    requires
        implicit_bit(format) <= value.significand < 2 * implicit_bit(format),
        value.exponent < 1 - format.exponent_bias(),
    ensures
        ({
            let result = packed(value, is_sticky, format, RoundingContext { rounding, is_sticky, control });
            let (away, toward) = directed_pair(value, is_sticky, format, control);
            &&& result == away || result == toward
            &&& rounding == FpRounding::Zero ==> result == toward
        }),
{
    let neg = value.is_negative;
    let minimum = 1 - format.exponent_bias();
    let shift = minimum - value.exponent;
    let width = format.mantissa_bits() + 1 + GUARD_BITS;
    if shift < width {
        let weight = pow2(shift as nat);
        let sticky = is_sticky || (value.significand as nat) % weight != 0;
        let shifted = ((value.significand as nat) / weight) as u64;
        lemma_guard_rounded_by_decision(shifted, sticky, rounding, neg);
    }
}

/// Every rounding mode gives one of the two neighbours: for every non-zero
/// unpacked value, with flush-to-zero off for its format, the result in any
/// mode is the result of rounding toward zero or of rounding away from zero
/// (toward minus or plus infinity, by sign), and rounding toward zero is
/// exactly the former.
#[verifier::spinoff_prover]
#[verifier::rlimit(40)]
pub proof fn lemma_rounding_picks_a_neighbour(value: Unpacked, is_sticky: bool, format: FpFormat, control: FpControl, rounding: FpRounding)
    requires
        value.significand != 0,
        i32::MIN + 64 <= value.exponent <= i32::MAX - 64,
        !flushes(format, control),
    ensures
        ({
            let result = rounded_and_packed(value, format, RoundingContext { rounding, is_sticky, control });
            let away = rounded_and_packed(value, format, RoundingContext { rounding: away_from_zero(value.is_negative), is_sticky, control });
            let toward = rounded_and_packed(value, format, RoundingContext { rounding: toward_zero(value.is_negative), is_sticky, control });
            &&& result == away || result == toward
            &&& rounding == FpRounding::Zero ==> result == toward
        }),
{
    lemma_normalised_facts(value, is_sticky, format);
    let (normal, sticky) = normalised(value, is_sticky, format);
    if normal.exponent < 1 - format.exponent_bias() {
        lemma_subnormal_neighbour(normal, sticky, format, control, rounding);
    } else {
        lemma_packed_normal_neighbour(normal, sticky, format, control, rounding);
    }
}

/// Whether `result` is `x = n / d` correctly rounded to a multiple of eight
/// in `rounding`, for a value of the given sign, where `below` is the
/// multiple of eight at or below `x`: truncation takes `below`; rounding
/// away from zero takes `below + 8` unless `x` is `below` exactly; nearest
/// takes the closer of the two, a tie going to the one whose eighth is even
/// (`NearestAway` sends a tie up). Round-to-odd is not a mode of the packer.
pub open spec fn rounded_correctly(result: int, n: int, d: int, below: int, rounding: FpRounding, is_negative: bool) -> bool {
    let up = if n == below * d { below } else { below + 8 };
    let to_below = 2 * (n - below * d);
    let to_above = 2 * ((below + 8) * d - n);
    match rounding {
        FpRounding::Zero => result == below,
        FpRounding::Plus => result == (if is_negative { below } else { up }),
        FpRounding::Minus => result == (if is_negative { up } else { below }),
        FpRounding::Nearest => if to_below < to_above {
            result == below
        } else if to_above < to_below {
            result == below + 8
        } else {
            (result == below || result == below + 8) && result % 16 == 0
        },
        FpRounding::NearestAway => result == (if to_below < to_above { below } else { below + 8 }),
        FpRounding::Odd => false,
    }
}

/// Whether `n / d` lies where a significand and its sticky flag say the exact
/// value lies: at `significand` when nothing was discarded, strictly between
/// it and the next integer otherwise.
pub open spec fn exact_within(significand: int, is_sticky: bool, n: int, d: int) -> bool {
    &&& d > 0
    &&& significand * d <= n < (significand + 1) * d
    &&& (n == significand * d) == !is_sticky
}

/// Whether `n / d` lies where a significand, a multiple of `width`, and its
/// sticky flag say the exact value lies: at `significand` when nothing was
/// discarded, strictly between it and `significand + width` otherwise. A
/// significand doubled after bits were discarded stands for a wider interval.
pub open spec fn exact_near(significand: int, is_sticky: bool, n: int, d: int, width: int) -> bool {
    &&& d > 0
    &&& width > 0
    &&& significand % width == 0
    &&& significand * d <= n < (significand + width) * d
    &&& (n == significand * d) == !is_sticky
}

/// Rounding at the guard bits is correct rounding: for any exact value
/// `n / d` that a significand and its sticky flag stand for, the rounded
/// significand is that value correctly rounded to a multiple of eight, the
/// two multiples of eight around the significand bracket the value, and
/// inexact is raised exactly when the rounded significand differs from it.
pub proof fn lemma_guard_rounding_is_correct(
    significand: u64,
    is_sticky: bool,
    rounding: FpRounding,
    is_negative: bool,
    n: int,
    d: int,
)
    requires
        exact_within(significand as int, is_sticky, n, d),
        rounding != FpRounding::Odd,
        significand <= u64::MAX - 8,
    ensures
        ({
            let (rounded, inexact) = guard_rounded(significand, is_sticky, rounding, is_negative);
            let below = significand - significand % 8;
            &&& below * d <= n < (below + 8) * d
            &&& rounded_correctly(rounded as int, n, d, below, rounding, is_negative)
            &&& (inexact == raised(0)) == (n == rounded * d)
            &&& inexact == raised(0) || inexact == raised(FPSR_IXC)
        }),
{
    lemma_guard_rounding_is_correct_near(significand, is_sticky, rounding, is_negative, n, d, 1);
}

pub proof fn lemma_guard_rounding_is_correct_near(
    significand: u64,
    is_sticky: bool,
    rounding: FpRounding,
    is_negative: bool,
    n: int,
    d: int,
    width: int,
)
    requires
        exact_near(significand as int, is_sticky, n, d, width),
        width == 1 || width == 2 || width == 4,
        rounding != FpRounding::Odd,
        significand <= u64::MAX - 8,
    ensures
        ({
            let (rounded, inexact) = guard_rounded(significand, is_sticky, rounding, is_negative);
            let below = significand - significand % 8;
            &&& below * d <= n < (below + 8) * d
            &&& rounded_correctly(rounded as int, n, d, below, rounding, is_negative)
            &&& (inexact == raised(0)) == (n == rounded * d)
            &&& inexact == raised(0) || inexact == raised(FPSR_IXC)
        }),
{
    let sig = significand as int;
    let g = sig % 8;
    let q = sig / 8;
    let below = sig - g;
    FpExceptions::with_flags(0).lemma_flags(0);
    FpExceptions::with_flags(FPSR_IXC).lemma_flags(FPSR_IXC);
    assert(sig == 8 * q + g);
    assert(below == 8 * q);
    assert(sig * d == below * d + g * d) by (nonlinear_arith)
        requires below == sig - g;
    assert((below + 8) * d == below * d + 8 * d) by (nonlinear_arith);
    assert((sig + 1) * d == sig * d + d) by (nonlinear_arith);
    assert((g + width) * d == g * d + width * d) by (nonlinear_arith);
    assert((sig + width) * d == sig * d + width * d) by (nonlinear_arith);
    assert(g % width == 0);
    assert(below % 16 == 0 <==> q % 2 == 0) by (nonlinear_arith)
        requires below == 8 * q, q >= 0;
    assert((below + 8) % 16 == 0 <==> q % 2 == 1) by (nonlinear_arith)
        requires below == 8 * q, q >= 0;
    // Where `x` sits between the two multiples of eight, in units of `d`.
    let offset = n - below * d;
    assert(g * d <= offset < g * d + width * d);
    assert((offset == g * d) == !is_sticky);
    assert(g + width <= 8);
    assert(g * d + width * d <= 8 * d) by (nonlinear_arith)
        requires g + width <= 8, d > 0;
    if g < 4 {
        assert(g + width <= 4);
        assert(g * d + width * d <= 4 * d) by (nonlinear_arith)
            requires g + width <= 4, d > 0, g >= 0;
        assert(offset < 4 * d);
    } else if g == 4 {
        assert(g * d == 4 * d);
    } else {
        assert(g * d >= 5 * d) by (nonlinear_arith)
            requires g >= 5, d > 0;
    }
    if g == 0 {
        assert(g * d == 0);
    } else {
        assert(g * d >= d) by (nonlinear_arith)
            requires g >= 1, d > 0;
    }
    assert(n == below * d <==> (g == 0 && !is_sticky));
    assert(n != (below + 8) * d);
    let (rounded, inexact) = guard_rounded(significand, is_sticky, rounding, is_negative);
    if g == 0 && !is_sticky {
        assert(rounded == sig && inexact == raised(0));
    } else {
        assert(inexact == raised(FPSR_IXC));
        assert(rounded == below || rounded == below + 8);
    }
}

/// In the normal range, packing is correct rounding: for any exact value
/// `n / d` (in units of the value's significand) that a normalised
/// significand and its sticky flag stand for, when the result does not
/// overflow, the encoding produced decodes, with the value's sign, to the
/// two multiples of eight around the significand that bracket the value,
/// picked as `rounded_correctly` says; and inexact is raised exactly when
/// that encoding's value is not the exact one. The two candidates are
/// adjacent encodings (`lemma_directed_rounding_adjacent`), so no
/// representable value lies between them.
#[verifier::spinoff_prover]
#[verifier::rlimit(80)]
pub proof fn lemma_packing_is_correctly_rounded(
    value: Unpacked,
    is_sticky: bool,
    format: FpFormat,
    control: FpControl,
    rounding: FpRounding,
    n: int,
    d: int,
    width: int,
)
    requires
        normal_case(value, format),
        exact_near(value.significand as int, is_sticky, n, d, width),
        width == 1 || width == 2 || width == 4,
        rounding != FpRounding::Odd,
        rounded_significand(value.significand, value.exponent, is_sticky, rounding, value.is_negative).1
            <= format.exponent_bias(),
    ensures
        ({
            let r = packed(value, is_sticky, format, RoundingContext { rounding, is_sticky, control });
            let out = unpacked_of(r.bits, format);
            let below = value.significand - value.significand % 8;
            let result = out.significand * pow2((out.exponent - value.exponent) as nat);
            &&& out.is_negative == value.is_negative
            &&& value.exponent <= out.exponent <= value.exponent + 1
            &&& below * d <= n < (below + 8) * d
            &&& rounded_correctly(result, n, d, below, rounding, value.is_negative)
            &&& (r.raised == raised(0)) == (n == result * d)
        }),
{
    lemma_format_constants(format);
    lemma2_to64();
    let t = implicit_bit(format) as nat;
    let k = (format.mantissa_bits() + 3) as nat;
    lemma_pow2_unfold(k + 1);
    let sig = value.significand;
    let e = value.exponent;
    let neg = value.is_negative;
    let span = (format.mantissa_mask() + 1) as int;
    let bias = format.exponent_bias() as int;
    assert(sig <= u64::MAX - 8);
    lemma_guard_rounding_is_correct_near(sig, is_sticky, rounding, neg, n, d, width);
    let (rounded, inexact) = guard_rounded(sig, is_sticky, rounding, neg);
    let (rs, re, flags) = rounded_significand(sig, e, is_sticky, rounding, neg);
    let below = (sig - sig % 8) as nat;
    assert(t % 8 == 0);
    assert(below >= t);
    assert(below + 8 <= 2 * t);
    assert(rounded == below || rounded == below + 8);
    lemma_bit_length_between(sig as nat, k);
    if rounded < 2 * t {
        lemma_bit_length_between(rounded as nat, k);
        assert(rs == rounded && re == e);
    } else {
        assert(rounded == 2 * t);
        lemma_pow2_unfold(k + 2);
        lemma_bit_length_between(rounded as nat, k + 1);
        assert(rs == t && re == e + 1);
    }
    assert(t <= rs < 2 * t && rs % 8 == 0);
    assert(rs / 8 >= span && rs / 8 < 2 * span);
    assert((rs / 8) as int % span == rs / 8 - span) by (nonlinear_arith)
        requires span <= rs / 8 < 2 * span;
    lemma_compose_fields(format, neg, (re + bias) as nat, (rs / 8 - span) as nat);
    let r = packed(value, is_sticky, format, RoundingContext { rounding, is_sticky, control });
    assert(r.bits == (format.zero(neg) + (re + bias) * span + (rs / 8 - span)) as u64);
    assert(r.raised == flags);
    let out = unpacked_of(r.bits, format);
    assert(out.significand == rs && out.exponent == re);
    assert(flags == inexact);
    if re == e {
        assert(pow2(0) == 1);
        assert(rounded < 2 * t);
        assert(out.significand == rounded);
        assert((out.exponent - e) as nat == 0);
        assert(out.significand * pow2((out.exponent - e) as nat) == rounded);
    } else {
        assert(pow2(1) == 2);
        assert((out.exponent - e) as nat == 1);
        assert(out.significand * pow2((out.exponent - e) as nat) == t * 2);
        assert(out.significand * pow2((out.exponent - e) as nat) == rounded);
    }
}

/// Halving keeps the exact value: where `n / d` is what a significand and
/// its sticky flag stand for, the halved significand and its sticky flag
/// stand for the same value in units twice as large for every halving.
proof fn lemma_shrunk_keeps_exactness(significand: nat, exponent: int, is_sticky: bool, target: nat, n: int, d: int)
    requires
        exact_within(significand as int, is_sticky, n, d),
    ensures
        ({
            let (halved, raised_exponent, sticky) = shrunk(significand, exponent, is_sticky, target);
            &&& raised_exponent >= exponent
            &&& raised_exponent == exponent ==> halved == significand && sticky == is_sticky
            &&& raised_exponent > exponent ==> halved >= target
            &&& exact_within(halved as int, sticky, n, d * pow2((raised_exponent - exponent) as nat))
        }),
    decreases significand,
{
    if target > 0 && significand >= 2 * target {
        let h = significand / 2;
        let odd = significand % 2 == 1;
        assert(significand == 2 * h + significand % 2);
        assert(h * (2 * d) == 2 * h * d) by (nonlinear_arith);
        assert((h + 1) * (2 * d) == 2 * h * d + 2 * d) by (nonlinear_arith);
        assert(significand * d == 2 * h * d + (significand % 2) * d) by (nonlinear_arith)
            requires significand == 2 * h + significand % 2;
        assert((significand + 1) * d == significand * d + d) by (nonlinear_arith);
        if odd {
            assert((significand % 2) * d == d);
        } else {
            assert((significand % 2) * d == 0);
        }
        assert(exact_within(h as int, is_sticky || odd, n, 2 * d));
        lemma_shrunk_keeps_exactness(h, exponent + 1, is_sticky || odd, target, n, 2 * d);
        let (halved, raised_exponent, sticky) = shrunk(h, exponent + 1, is_sticky || odd, target);
        lemma_pow2_unfold((raised_exponent - exponent) as nat);
        assert(2 * d * pow2((raised_exponent - (exponent + 1)) as nat) == d * pow2((raised_exponent - exponent) as nat))
            by (nonlinear_arith)
            requires pow2((raised_exponent - exponent) as nat) == 2 * pow2((raised_exponent - (exponent + 1)) as nat);
    } else {
        assert(pow2(0) == 1) by { lemma2_to64(); }
        assert(d * pow2(0) == d);
    }
}

/// Doubling keeps the exact value: a significand that, with its sticky flag,
/// stands for `n / d` within `width`, doubled `j` times, stands for
/// `n * 2^j / d` within `width * 2^j`.
proof fn lemma_grown_keeps_exactness(significand: nat, exponent: int, target: nat, is_sticky: bool, n: int, d: int, width: int)
    requires
        exact_near(significand as int, is_sticky, n, d, width),
    ensures
        ({
            let (doubled, lowered_exponent) = grown(significand, exponent, target);
            let steps = pow2((exponent - lowered_exponent) as nat);
            &&& lowered_exponent <= exponent
            &&& exact_near(doubled as int, is_sticky, n * steps, d, width * steps)
        }),
    decreases (if significand < target { target - significand } else { 0 }),
{
    if 0 < significand < target {
        let a = significand as int / width;
        vstd::arithmetic::div_mod::lemma_fundamental_div_mod(significand as int, width);
        assert(significand == width * a);
        assert((2 * significand) as int == (2 * width) * a) by (nonlinear_arith)
            requires significand == width * a;
        vstd::arithmetic::div_mod::lemma_mod_multiples_basic(a, 2 * width);
        assert(((2 * width) * a) % (2 * width) == 0) by (nonlinear_arith)
            requires (a * (2 * width)) % (2 * width) == 0;
        assert((2 * significand) * d == 2 * (significand * d)) by (nonlinear_arith);
        assert((2 * significand + 2 * width) * d == 2 * ((significand + width) * d)) by (nonlinear_arith);
        assert(exact_near((2 * significand) as int, is_sticky, 2 * n, d, 2 * width));
        lemma_grown_keeps_exactness(2 * significand, exponent - 1, target, is_sticky, 2 * n, d, 2 * width);
        let (doubled, lowered_exponent) = grown(2 * significand, exponent - 1, target);
        lemma_pow2_unfold((exponent - lowered_exponent) as nat);
        let inner = pow2((exponent - 1 - lowered_exponent) as nat);
        assert(2 * n * inner == n * pow2((exponent - lowered_exponent) as nat) && 2 * width * inner
            == width * pow2((exponent - lowered_exponent) as nat)) by (nonlinear_arith)
            requires pow2((exponent - lowered_exponent) as nat) == 2 * inner;
    } else {
        assert(pow2(0) == 1) by { lemma2_to64(); }
        assert(n * 1 == n && width * 1 == width);
    }
}

/// Whether `normalised` gives `significand`, `exponent` and `sticky` for
/// `value`, the casts to the unpacked fields being exact.
spec fn normal_parts_agree(value: Unpacked, is_sticky: bool, format: FpFormat, significand: nat, exponent: int, sticky: bool) -> bool {
    let (normal, flag) = normalised(value, is_sticky, format);
    &&& normal.significand == significand
    &&& normal.exponent == exponent
    &&& flag == sticky
}

/// The exact value `n / d`, given in units of `value`'s significand, in
/// units of `normal`'s: scaled by the power of two between their exponents.
pub open spec fn rescaled(n: int, d: int, value: Unpacked, normal: Unpacked) -> (int, int) {
    if normal.exponent >= value.exponent {
        (n, d * pow2((normal.exponent - value.exponent) as nat))
    } else {
        (n * pow2((value.exponent - normal.exponent) as nat), d)
    }
}

/// How wide an interval a normalised significand stands for: a significand
/// doubled `j` times after bits were discarded below it stands for an
/// interval `2^j` wide; any other for the usual one.
pub open spec fn normal_width(value: Unpacked, normal: Unpacked, is_sticky: bool) -> int {
    if is_sticky && normal.exponent < value.exponent {
        pow2((value.exponent - normal.exponent) as nat) as int
    } else {
        1
    }
}

/// Normalising keeps the exact value: where `n / d` is what a non-zero
/// significand and its sticky flag stand for, and the significand is at
/// least a quarter of the implicit bit or nothing was discarded below it,
/// the normalised significand and its sticky flag stand for the same value,
/// rescaled to the normalised exponent, within an interval of one, two or
/// four units (`normal_width`): a significand doubled after bits were
/// discarded no longer knows its lowest bits.
pub proof fn lemma_normalised_keeps_exactness(value: Unpacked, is_sticky: bool, format: FpFormat, n: int, d: int)
    requires
        value.significand != 0,
        exact_within(value.significand as int, is_sticky, n, d),
        4 * value.significand >= implicit_bit(format) || !is_sticky,
        i32::MIN + 64 <= value.exponent <= i32::MAX - 64,
    ensures
        ({
            let (normal, sticky) = normalised(value, is_sticky, format);
            let (n2, d2) = rescaled(n, d, value, normal);
            let width = normal_width(value, normal, sticky);
            &&& sticky == is_sticky || value.significand >= implicit_bit(format)
            &&& width == 1 || width == 2 || width == 4
            &&& value.significand >= implicit_bit(format) ==> width == 1
            &&& exact_near(normal.significand as int, sticky, n2, d2, width)
        }),
{
    let target = implicit_bit(format) as nat;
    lemma_implicit_bit(format);
    lemma_format_constants(format);
    lemma2_to64();
    vstd::arithmetic::power2::lemma2_to64_rest();
    assert(value.significand < 2 * target * pow2(50)) by (nonlinear_arith)
        requires value.significand < 0x1_0000_0000_0000_0000, pow2(50) == 0x4_0000_0000_0000, target >= 0x2000;
    lemma_shrunk_facts(value.significand as nat, value.exponent as int, is_sticky, target, 50);
    lemma_shrunk_keeps_exactness(value.significand as nat, value.exponent as int, is_sticky, target, n, d);
    let (halved, raised_exponent, sticky) = shrunk(value.significand as nat, value.exponent as int, is_sticky, target);
    let d1 = d * pow2((raised_exponent - value.exponent) as nat);
    if halved < target {
        // Nothing was halved, so nothing was folded in.
        assert(raised_exponent == value.exponent);
        assert(halved == value.significand);
        assert(pow2(0) == 1) by { lemma2_to64(); }
        assert(sticky == is_sticky);
        assert((raised_exponent - value.exponent) as nat == 0);
        assert(d1 == d);
        assert(exact_near(halved as int, sticky, n, d1, 1));
        lemma_grown_keeps_exactness(halved, raised_exponent, target, sticky, n, d1, 1);
        let (doubled, lowered) = grown(halved, raised_exponent, target);
        if is_sticky {
            assert(halved * pow2(2) >= target);
            lemma_grown_facts(halved, raised_exponent, target, 2);
        } else {
            if target < 0x80_0000_0000_0000 {
                lemma_pow2_strictly_increases((format.mantissa_bits() + 3) as nat, 55);
            }
            assert(halved * pow2(55) >= target) by (nonlinear_arith)
                requires halved >= 1, pow2(55) == 0x80_0000_0000_0000, target <= 0x80_0000_0000_0000;
            lemma_grown_facts(halved, raised_exponent, target, 55);
        }
        assert(normal_parts_agree(value, is_sticky, format, doubled, lowered, sticky));
        let steps = pow2((raised_exponent - lowered) as nat);
        assert(1 * steps == steps);
        if lowered == value.exponent {
            assert(n * pow2(0) == n);
            assert(d * pow2(0) == d);
        }
        if !sticky {
            // An exact value is exact at any width.
            assert(exact_near(doubled as int, sticky, n * steps, d, 1)) by (nonlinear_arith)
                requires exact_near(doubled as int, sticky, n * steps, d, steps as int), !sticky;
        } else {
            assert(raised_exponent - lowered <= 2);
            if raised_exponent - lowered == 2 {
                assert(pow2(2) == 4);
            }
        }
    } else {
        assert(grown(halved, raised_exponent, target) == (halved, raised_exponent));
        assert(normal_parts_agree(value, is_sticky, format, halved, raised_exponent, sticky));
        assert(exact_near(halved as int, sticky, n, d1, 1));
    }
}

/// A multiple of `width` below a multiple of `width` is at least a whole
/// `width` below it.
proof fn lemma_bits_up_to_width(value: int, bound: int, width: int)
    requires
        width == 1 || width == 2 || width == 4,
        0 <= value < bound,
        value % width == 0,
        bound % width == 0,
    ensures
        value + width <= bound,
{
}

/// What a division by a multiple of `width` leaves of a multiple of `width`
/// is a multiple of `width`, and so at least a whole `width` below the
/// divisor.
proof fn lemma_remainder_leaves_width(value: int, divisor: int, quotient: int, width: int)
    requires
        width == 1 || width == 2 || width == 4,
        divisor > 0,
        value >= 0,
        value % width == 0,
        divisor % width == 0,
        quotient == value / divisor,
    ensures
        value % divisor + width <= divisor,
{
    vstd::arithmetic::div_mod::lemma_fundamental_div_mod(value, divisor);
    let rem = value % divisor;
    let a = value / width;
    let b = divisor / width;
    assert(value == width * a && divisor == width * b);
    assert(rem == width * (a - b * quotient)) by (nonlinear_arith)
        requires value == divisor * quotient + rem, value == width * a, divisor == width * b;
    let c = a - b * quotient;
    assert(0 <= c < b) by (nonlinear_arith)
        requires rem == width * c, 0 <= rem < divisor, divisor == width * b, width > 0;
    assert(width * c + width <= width * b) by (nonlinear_arith)
        requires c < b, width > 0;
}

/// The magnitude of a finite encoding in units of an eighth of the smallest
/// subnormal: a subnormal's fraction, or a normal value's fraction with its
/// implicit bit, scaled by its exponent above the minimum.
pub open spec fn magnitude_units(bits: u64, format: FpFormat) -> int {
    let exponent = format.exponent_field(bits);
    let fraction = format.fraction_field(bits);
    if exponent == 0 {
        fraction * 8
    } else {
        (fraction + format.mantissa_mask() + 1) * 8 * pow2((exponent - 1) as nat)
    }
}

/// The multiple of eight, in units of an eighth of the smallest subnormal,
/// at or below a normalised value below the normal range: its significand
/// shifted down to the minimum exponent with the guard bits cleared, or zero
/// when the whole significand is shifted out.
pub open spec fn subnormal_below(value: Unpacked, format: FpFormat) -> int {
    let shift = (1 - format.exponent_bias()) - value.exponent;
    let width = format.mantissa_bits() + 1 + GUARD_BITS;
    if shift >= width {
        0
    } else {
        let shifted = (value.significand as nat) / pow2(shift as nat);
        shifted - shifted % 8
    }
}

/// Below the normal range, packing is correct rounding: for any exact value
/// `n / d` (in units of the value's significand) that a normalised
/// significand and its sticky flag stand for, the encoding produced has the
/// value's sign, and its magnitude, in units of an eighth of the smallest
/// subnormal, is that value (rescaled to those units) correctly rounded to a
/// multiple of eight, the grid of subnormals; inexact, with underflow, is
/// raised exactly when it is not the exact value.
#[verifier::spinoff_prover]
#[verifier::rlimit(80)]
pub proof fn lemma_subnormal_packing_is_correctly_rounded(
    value: Unpacked,
    is_sticky: bool,
    format: FpFormat,
    control: FpControl,
    rounding: FpRounding,
    n: int,
    d: int,
    width: int,
)
    requires
        implicit_bit(format) <= value.significand < 2 * implicit_bit(format),
        value.exponent < 1 - format.exponent_bias(),
        exact_near(value.significand as int, is_sticky, n, d, width),
        width == 1 || width == 2 || width == 4,
        rounding != FpRounding::Odd,
    ensures
        ({
            let r = subnormal_packed(value, is_sticky, format, RoundingContext { rounding, is_sticky, control });
            let scaled = d * pow2(((1 - format.exponent_bias()) - value.exponent) as nat);
            let below = subnormal_below(value, format);
            let result = magnitude_units(r.bits, format);
            &&& ((r.bits / format.sign_weight()) % 2 == 1) == value.is_negative
            &&& format.exponent_field(r.bits) <= 1
            &&& below * scaled <= n < (below + 8) * scaled
            &&& rounded_correctly(result, n, scaled, below, rounding, value.is_negative)
            &&& (r.raised == raised(0)) == (n == result * scaled)
            &&& r.raised != raised(0) ==> r.raised == raised(FPSR_UFC | FPSR_IXC)
        }),
{
    lemma_format_constants(format);
    lemma2_to64();
    FpExceptions::with_flags(0).lemma_flags(0);
    FpExceptions::with_flags(FPSR_IXC).lemma_flags(FPSR_IXC);
    FpExceptions::with_flags(FPSR_UFC | FPSR_IXC).lemma_flags(FPSR_UFC | FPSR_IXC);
    assert(FPSR_IXC | FPSR_UFC == 24u8 && FPSR_UFC | FPSR_IXC == 24u8) by (bit_vector);
    FpExceptions::with_flags(24).lemma_flags(24);
    let t = implicit_bit(format) as nat;
    let k = (format.mantissa_bits() + 3) as nat;
    let span = (format.mantissa_mask() + 1) as int;
    let neg = value.is_negative;
    let sig = value.significand as nat;
    let minimum = 1 - format.exponent_bias();
    let shift = (minimum - value.exponent) as nat;
    let cut = format.mantissa_bits() + 1 + GUARD_BITS;
    let weight = pow2(shift);
    lemma_pow2_pos(shift);
    let scaled = d * weight;
    assert(scaled > 0) by (nonlinear_arith)
        requires d > 0, weight > 0, scaled == d * weight;
    assert(sig * d > 0) by (nonlinear_arith)
        requires sig > 0, d > 0;
    lemma_pow2_unfold(k + 1);
    let r = subnormal_packed(value, is_sticky, format, RoundingContext { rounding, is_sticky, control });
    if shift >= cut {
        // Everything is shifted out: the value is below one unit.
        lemma_pow2_strictly_increases(k, shift);
        if shift > k + 1 {
            lemma_pow2_strictly_increases(k + 1, shift);
        }
        assert(2 * t <= weight);
        assert(sig + width <= 2 * t) by {
            lemma_bits_up_to_width(sig as int, (2 * t) as int, width);
        }
        assert((sig + width) * d <= scaled) by (nonlinear_arith)
            requires sig + width <= weight, d > 0, scaled == d * weight;
        assert(n < scaled);
        assert(0 < n);
        let bits = r.bits;
        lemma_compose_fields(format, neg, 0, 0);
        lemma_compose_fields(format, neg, 0, 1);
        assert(r.raised == raised(FPSR_UFC | FPSR_IXC));
        assert(FPSR_UFC | FPSR_IXC == 24u8) by (bit_vector);
        assert(raised(FPSR_UFC | FPSR_IXC).flags() == 24);
        assert(raised(0).flags() == 0);
        assert(raised(FPSR_UFC | FPSR_IXC) != raised(0));
        let is_away = match rounding {
            FpRounding::Plus => !neg,
            FpRounding::Minus => neg,
            _ => false,
        };
        if is_away {
            assert(bits == format.zero(neg) + 0 * span + 1);
            assert(magnitude_units(bits, format) == 8);
        } else {
            assert(bits == format.zero(neg) + 0 * span + 0);
            assert(magnitude_units(bits, format) == 0);
        }
        assert(subnormal_below(value, format) == 0);
        assert(0 * scaled == 0);
        assert(8 * scaled > n);
    } else {
        let shifted = sig / weight;
        let sticky = is_sticky || sig % weight != 0;
        vstd::arithmetic::div_mod::lemma_fundamental_div_mod(sig as int, weight as int);
        assert(sig == weight * shifted + sig % weight);
        assert(weight >= 2) by {
            lemma_pow2_unfold(shift);
            lemma_pow2_pos((shift - 1) as nat);
        }
        let rem = sig % weight;
        // The significand and the shift are both multiples of the width, so
        // what is shifted out leaves room for a whole width below the next
        // unit, unless the width is larger than the shift.
        let narrow: int = if weight >= width { 1 } else { 2 };
        if weight >= width {
            assert((weight as int) % width == 0) by {
                if width == 2 {
                    lemma_pow2_unfold(shift);
                } else if width == 4 {
                    lemma_pow2_unfold(shift);
                    lemma_pow2_unfold((shift - 1) as nat);
                    lemma_pow2_pos((shift - 2) as nat);
                }
            }
            lemma_remainder_leaves_width(sig as int, weight as int, shifted as int, width);
            assert(rem + width <= weight);
            assert(exact_near(shifted as int, sticky, n, scaled, narrow)) by (nonlinear_arith)
                requires
                    sig == weight * shifted + rem,
                    0 <= rem,
                    rem + width <= weight,
                    sig * d <= n < (sig + width) * d,
                    (n == sig * d) == !is_sticky,
                    sticky == (is_sticky || rem != 0),
                    scaled == d * weight,
                    d > 0,
                    shifted >= 0,
                    narrow == 1;
        } else {
            if shift >= 2 {
                lemma_pow2_unfold(shift);
                lemma_pow2_unfold((shift - 1) as nat);
                lemma_pow2_pos((shift - 2) as nat);
            } else {
                assert(shift == 1);
                assert(pow2(1) == 2);
            }
            assert(weight == 2 && width == 4);
            assert(shifted == sig / 2 && rem == sig % 2);
            assert((sig as int) % 4 == 0);
            assert(rem == 0 && shifted % 2 == 0) by (nonlinear_arith)
                requires
                    (sig as int) % 4 == 0,
                    shifted == sig / 2,
                    rem == sig % 2,
                    sig >= 0;
            assert(exact_near(shifted as int, sticky, n, scaled, narrow)) by (nonlinear_arith)
                requires
                    sig == 2 * shifted,
                    sig * d <= n < (sig + 4) * d,
                    (n == sig * d) == !is_sticky,
                    sticky == is_sticky,
                    scaled == d * 2,
                    d > 0,
                    shifted % 2 == 0,
                    narrow == 2;
        }
        assert(shifted < t) by {
            lemma_pow2_unfold(shift);
            lemma_pow2_pos((shift - 1) as nat);
            assert(weight >= 2);
            vstd::arithmetic::div_mod::lemma_div_is_ordered_by_denominator(sig as int, 2, weight as int);
            assert(sig / 2 < t);
        }
        assert(shifted <= u64::MAX - 8);
        lemma_guard_rounding_is_correct_near(shifted as u64, sticky, rounding, neg, n, scaled, narrow);
        let (rounded, inexact) = guard_rounded(shifted as u64, sticky, rounding, neg);
        let below = shifted - shifted % 8;
        assert(t % 8 == 0);
        assert(below + 8 <= t);
        assert(rounded % 8 == 0 && rounded <= t);
        let mantissa = rounded / 8;
        assert(mantissa <= span);
        if mantissa < span {
            lemma_compose_fields(format, neg, 0, mantissa as nat);
            assert(r.bits == format.zero(neg) + 0 * span + mantissa);
            assert(magnitude_units(r.bits, format) == rounded);
        } else {
            lemma_compose_fields(format, neg, 1, 0);
            assert(r.bits == format.zero(neg) + 1 * span + 0);
            assert(pow2(0) == 1);
            assert(rounded == 8 * mantissa);
            assert(rounded == t);
            assert(format.exponent_field(r.bits) == 1 && format.fraction_field(r.bits) == 0);
            assert(magnitude_units(r.bits, format) == (0 + span) * 8 * pow2(0));
            assert(magnitude_units(r.bits, format) == rounded);
        }
    }
}

/// Beyond the normal range, packing goes where correct rounding goes: when
/// the value, rounded with no limit on its exponent, would pass the largest
/// exponent, the exact value `n / d` (in units of the value's significand,
/// brought to the largest exponent) is at least the largest finite value,
/// and in the nearest modes at least half a unit past it; the result is then
/// the overflow result, which is infinity in the nearest modes and away from
/// zero, and the largest finite value toward zero.
#[verifier::spinoff_prover]
#[verifier::rlimit(40)]
pub proof fn lemma_overflow_is_correctly_rounded(
    value: Unpacked,
    is_sticky: bool,
    format: FpFormat,
    control: FpControl,
    rounding: FpRounding,
    n: int,
    d: int,
    width: int,
)
    requires
        normal_case(value, format),
        exact_near(value.significand as int, is_sticky, n, d, width),
        width == 1 || width == 2 || width == 4,
        rounding != FpRounding::Odd,
        rounded_significand(value.significand, value.exponent, is_sticky, rounding, value.is_negative).1
            > format.exponent_bias(),
    ensures
        ({
            let t = implicit_bit(format) as int;
            let lifted = n * pow2((value.exponent - format.exponent_bias()) as nat);
            &&& value.exponent >= format.exponent_bias()
            &&& lifted >= (2 * t - 8) * d
            &&& (rounding == FpRounding::Nearest || rounding == FpRounding::NearestAway) ==> lifted >= (2 * t - 4) * d
            &&& packed(value, is_sticky, format, RoundingContext { rounding, is_sticky, control })
                == overflowed(value.is_negative, format, rounding)
        }),
{
    lemma_format_constants(format);
    lemma2_to64();
    let t = implicit_bit(format) as nat;
    let k = (format.mantissa_bits() + 3) as nat;
    lemma_pow2_unfold(k + 1);
    let sig = value.significand;
    let e = value.exponent;
    let neg = value.is_negative;
    let bias = format.exponent_bias() as int;
    assert(sig <= u64::MAX - 8);
    lemma_guard_rounding_is_correct_near(sig, is_sticky, rounding, neg, n, d, width);
    let (rounded, inexact) = guard_rounded(sig, is_sticky, rounding, neg);
    let (rs, re, flags) = rounded_significand(sig, e, is_sticky, rounding, neg);
    let below = (sig - sig % 8) as int;
    assert(t % 8 == 0);
    assert(below + 8 <= 2 * t);
    lemma_bit_length_between(sig as nat, k);
    if rounded < 2 * t {
        assert(rounded >= t);
        lemma_bit_length_between(rounded as nat, k);
        assert(re == e);
    } else {
        lemma_pow2_unfold(k + 2);
        lemma_bit_length_between(rounded as nat, k + 1);
        assert(re == e + 1);
    }
    let lift = pow2((e - bias) as nat);
    if e > bias {
        lemma_pow2_unfold((e - bias) as nat);
        lemma_pow2_pos((e - bias - 1) as nat);
        assert(lift >= 2);
        assert(n >= t * d) by (nonlinear_arith)
            requires n >= sig * d, sig >= t, d > 0;
        assert(n * lift >= (2 * t) * d) by (nonlinear_arith)
            requires n >= t * d, lift >= 2, d > 0, t > 0;
        assert((2 * t - 8) * d <= (2 * t) * d && (2 * t - 4) * d <= (2 * t) * d) by (nonlinear_arith)
            requires d > 0, t >= 8;
    } else {
        assert(e == bias);
        assert(rounded == 2 * t);
        assert(rounded == below + 8);
        assert(lift == 1);
        assert(n * lift == n) by (nonlinear_arith)
            requires lift == 1;
        assert(below == 2 * t - 8);
        assert((below + 8) * d == below * d + 8 * d && (below + 4) * d == below * d + 4 * d) by (nonlinear_arith);
        if rounding == FpRounding::Nearest || rounding == FpRounding::NearestAway {
            assert(2 * (n - below * d) >= 2 * ((below + 8) * d - n));
            assert(n >= (below + 4) * d);
        }
    }
}

/// Whether `r` is what correct rounding makes of the exact value `n / d`,
/// given in units of a normalised significand `normal` with its sticky flag,
/// in each range of the format: below the normal range, its magnitude in
/// units of an eighth of the smallest subnormal is that value correctly
/// rounded on the subnormal grid; in the normal range, it decodes to the
/// value correctly rounded on the grid of its binade; past the largest
/// exponent, the value is at least the largest finite value (and half a unit
/// more in the nearest modes) and `r` is the overflow result.
pub open spec fn correctly_packed(normal: Unpacked, is_sticky: bool, format: FpFormat, rounding: FpRounding, r: FpResult, n: int, d: int) -> bool {
    let minimum = 1 - format.exponent_bias();
    let neg = normal.is_negative;
    let sig = normal.significand;
    if normal.exponent < minimum {
        let scaled = d * pow2((minimum - normal.exponent) as nat);
        let below = subnormal_below(normal, format);
        let result = magnitude_units(r.bits, format);
        &&& ((r.bits / format.sign_weight()) % 2 == 1) == neg
        &&& below * scaled <= n < (below + 8) * scaled
        &&& rounded_correctly(result, n, scaled, below, rounding, neg)
        &&& (r.raised == raised(0)) == (n == result * scaled)
    } else if rounded_significand(sig, normal.exponent, is_sticky, rounding, neg).1 <= format.exponent_bias() {
        let out = unpacked_of(r.bits, format);
        let below = sig - sig % 8;
        let result = out.significand * pow2((out.exponent - normal.exponent) as nat);
        &&& out.is_negative == neg
        &&& below * d <= n < (below + 8) * d
        &&& rounded_correctly(result, n, d, below, rounding, neg)
        &&& (r.raised == raised(0)) == (n == result * d)
    } else {
        let t = implicit_bit(format) as int;
        let lifted = n * pow2((normal.exponent - format.exponent_bias()) as nat);
        &&& lifted >= (2 * t - 8) * d
        &&& (rounding == FpRounding::Nearest || rounding == FpRounding::NearestAway) ==> lifted >= (2 * t - 4) * d
        &&& r == overflowed(neg, format, rounding)
    }
}

/// Rounding and packing is correct rounding: for a non-zero value whose
/// significand and sticky flag stand for the exact value `n / d` (in units
/// of that significand), and that is already at least the implicit bit or
/// exact, with flush-to-zero off for the format and any mode but
/// round-to-odd, the result is that exact value correctly rounded in the
/// format, range by range as `correctly_packed` says, once the value is
/// normalised and `n / d` rescaled to the normalised exponent.
pub proof fn lemma_round_and_pack_is_correctly_rounded(
    value: Unpacked,
    is_sticky: bool,
    format: FpFormat,
    control: FpControl,
    rounding: FpRounding,
    n: int,
    d: int,
)
    requires
        value.significand != 0,
        i32::MIN + 64 <= value.exponent <= i32::MAX - 64,
        exact_within(value.significand as int, is_sticky, n, d),
        4 * value.significand >= implicit_bit(format) || !is_sticky,
        !flushes(format, control),
        rounding != FpRounding::Odd,
    ensures
        ({
            let (normal, sticky) = normalised(value, is_sticky, format);
            let (n2, d2) = rescaled(n, d, value, normal);
            &&& exact_near(normal.significand as int, sticky, n2, d2, normal_width(value, normal, sticky))
            &&& value.significand >= implicit_bit(format) ==> normal_width(value, normal, sticky) == 1
            &&& correctly_packed(
                normal,
                sticky,
                format,
                rounding,
                rounded_and_packed(value, format, RoundingContext { rounding, is_sticky, control }),
                n2,
                d2,
            )
        }),
{
    lemma_normalised_facts(value, is_sticky, format);
    lemma_normalised_keeps_exactness(value, is_sticky, format, n, d);
    let (normal, sticky) = normalised(value, is_sticky, format);
    let (n2, d2) = rescaled(n, d, value, normal);
    let context = RoundingContext { rounding, is_sticky, control };
    let inner = RoundingContext { rounding, is_sticky: sticky, control };
    let packed_result = packed(normal, sticky, format, context);
    assert(packed_result == packed(normal, sticky, format, inner));
    assert(rounded_and_packed(value, format, context) == flushed(packed_result, format, control));
    assert(flushed(packed_result, format, control) == packed_result);
    if normal.exponent < 1 - format.exponent_bias() {
        lemma_subnormal_packing_is_correctly_rounded(normal, sticky, format, control, rounding, n2, d2, normal_width(value, normal, sticky));
    } else if rounded_significand(normal.significand, normal.exponent, sticky, rounding, normal.is_negative).1
        <= format.exponent_bias() {
        lemma_packing_is_correctly_rounded(normal, sticky, format, control, rounding, n2, d2, normal_width(value, normal, sticky));
    } else {
        lemma_overflow_is_correctly_rounded(normal, sticky, format, control, rounding, n2, d2, normal_width(value, normal, sticky));
    }
}

/// What unpacking gives: a zero significand exactly for a zero, otherwise
/// one in the implicit bit's binade, and an exponent well within `i32`.
pub proof fn lemma_unpacked_shape(bits: u64, format: FpFormat)
    ensures
        ({
            let u = unpacked_of(bits, format);
            &&& u.significand == 0 || implicit_bit(format) <= u.significand < 2 * implicit_bit(format)
            &&& u.significand == 0 <==> (format.exponent_field(bits) == 0 && format.fraction_field(bits) == 0)
            &&& -1100 < u.exponent < 1100
            &&& u.significand % 8 == 0
        }),
{
    lemma_implicit_bit(format);
    lemma2_to64();
    let span = (format.mantissa_mask() + 1) as nat;
    let exponent = format.exponent_field(bits);
    let fraction = format.fraction_field(bits);
    assert(fraction < span);
    assert(exponent <= format.max_exponent());
    if exponent == 0 && fraction != 0 {
        lemma_subnormal_shift(fraction as nat, span, format.mantissa_bits() as nat);
        let shift = subnormal_shift(fraction as nat, span);
        assert(fraction * pow2(shift) * 8 < 2 * implicit_bit(format));
        assert(fraction * pow2(shift) * 8 >= implicit_bit(format));
        let m = fraction * pow2(shift);
        assert((m * 8) % 8 == 0) by (nonlinear_arith)
            requires m >= 0;
    } else if exponent != 0 {
        assert((fraction + span) * 8 < 2 * implicit_bit(format));
        assert(((fraction + span) * 8) % 8 == 0) by (nonlinear_arith)
            requires fraction + span >= 0;
    }
}

} // verus!
