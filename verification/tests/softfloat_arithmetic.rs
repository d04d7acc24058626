use lib::fp::control::{FpControl, FpExceptions};
use lib::fp::operand::{FpFormat, FpResult, FpRounding};
use lib::fp::softfloat::arithmetic::{add, add_finite, divide, multiply, square_root, Context};
use lib::fp::softfloat::decompose::{unpack, Unpacked};


const SINGLE: FpFormat = FpFormat::Single;
const DOUBLE: FpFormat = FpFormat::Double;

fn context(format: FpFormat) -> Context {
    Context {
        format,
        rounding: FpRounding::Nearest,
        control: FpControl::reset(),
    }
}

/// Runs an operation on `f64` inputs and returns the result as an `f64`.
fn double_op(operation: fn(u64, u64, Context) -> FpResult, lhs: f64, rhs: f64) -> f64 {
    f64::from_bits(operation(lhs.to_bits(), rhs.to_bits(), context(DOUBLE)).bits)
}

fn add_double(lhs: f64, rhs: f64) -> f64 {
    f64::from_bits(add(lhs.to_bits(), rhs.to_bits(), false, context(DOUBLE)).bits)
}

#[test]
fn addition_matches_the_hosts_own_double_arithmetic() {
    // The host FPU is the oracle here: it is IEEE-754 in the same default
    // mode, so any disagreement is a softfloat bug.
    let cases = [
        (1.0, 2.0),
        (0.1, 0.2),
        (1.0, -1.0),
        (1e300, 1e300),
        (1.0, 1e-300),
        (-5.5, 2.25),
        (f64::MAX, f64::MAX),
        (f64::MIN_POSITIVE, f64::MIN_POSITIVE),
        (1.0, f64::MIN_POSITIVE),
        (123456.789, -0.000123),
    ];

    for (lhs, rhs) in cases {
        assert_eq!(
            add_double(lhs, rhs).to_bits(),
            (lhs + rhs).to_bits(),
            "{lhs} + {rhs}"
        );
    }
}

#[test]
fn subtraction_matches_the_host() {
    let cases = [(1.0, 2.0), (0.3, 0.1), (1e300, -1e300), (1.0, 1.0)];

    for (lhs, rhs) in cases {
        let result = subtract(lhs, rhs);
        assert_eq!(result.to_bits(), (lhs - rhs).to_bits(), "{lhs} - {rhs}");
    }
}

fn subtract(lhs: f64, rhs: f64) -> f64 {
    f64::from_bits(add(lhs.to_bits(), rhs.to_bits(), true, context(DOUBLE)).bits)
}

#[test]
fn multiplication_matches_the_host() {
    let cases = [
        (1.5, 2.0),
        (0.1, 0.3),
        (1e200, 1e200),
        (1e-200, 1e-200),
        (-3.0, 7.5),
        (f64::MAX, 0.5),
        (f64::MIN_POSITIVE, 0.5),
        (1.0 / 3.0, 3.0),
    ];

    for (lhs, rhs) in cases {
        assert_eq!(
            double_op(multiply, lhs, rhs).to_bits(),
            (lhs * rhs).to_bits(),
            "{lhs} * {rhs}"
        );
    }
}

#[test]
fn division_matches_the_host() {
    let cases = [
        (1.0, 3.0),
        (10.0, 4.0),
        (1e300, 1e-10),
        (-7.0, 2.0),
        (1.0, f64::MAX),
        (f64::MIN_POSITIVE, 2.0),
    ];

    for (lhs, rhs) in cases {
        assert_eq!(
            double_op(divide, lhs, rhs).to_bits(),
            (lhs / rhs).to_bits(),
            "{lhs} / {rhs}"
        );
    }
}

#[test]
fn square_root_matches_the_host() {
    for value in [
        0.0f64, 1.0, 2.0, 4.0, 9.0, 0.25, 1e300, 1e-300, 123456.789, 3.0,
    ] {
        let result = f64::from_bits(square_root(value.to_bits(), context(DOUBLE)).bits);
        assert_eq!(result.to_bits(), value.sqrt().to_bits(), "sqrt({value})");
    }
}

#[test]
fn single_precision_arithmetic_matches_the_host() {
    let single = context(SINGLE);
    let cases = [(1.0f32, 3.0f32), (0.1, 0.2), (1e30, 1e30), (7.5, -2.25)];

    for (lhs, rhs) in cases {
        let sum = add(lhs.to_bits() as u64, rhs.to_bits() as u64, false, single);
        assert_eq!(
            f32::from_bits(sum.bits as u32).to_bits(),
            (lhs + rhs).to_bits()
        );

        let product = multiply(lhs.to_bits() as u64, rhs.to_bits() as u64, single);
        assert_eq!(
            f32::from_bits(product.bits as u32).to_bits(),
            (lhs * rhs).to_bits()
        );

        let quotient = divide(lhs.to_bits() as u64, rhs.to_bits() as u64, single);
        assert_eq!(
            f32::from_bits(quotient.bits as u32).to_bits(),
            (lhs / rhs).to_bits()
        );
    }
}

#[test]
fn adding_opposite_infinities_is_invalid() {
    let result = add(
        DOUBLE.infinity(),
        DOUBLE.signed_infinity(true),
        false,
        context(DOUBLE),
    );

    assert_eq!(result.bits, DOUBLE.default_nan());
    assert!(result.raised.contains(FpExceptions::invalid()));
}

#[test]
fn multiplying_zero_by_infinity_is_invalid() {
    let result = multiply(0, DOUBLE.infinity(), context(DOUBLE));

    assert_eq!(result.bits, DOUBLE.default_nan());
    assert!(result.raised.contains(FpExceptions::invalid()));
}

#[test]
fn dividing_a_finite_by_zero_raises_divide_by_zero_not_invalid() {
    let result = divide(1.0f64.to_bits(), 0, context(DOUBLE));

    assert_eq!(result.bits, DOUBLE.infinity());
    assert!(result.raised.contains(FpExceptions::divide_by_zero()));
    assert!(!result.raised.contains(FpExceptions::invalid()));

    // The sign follows the operands, and 0/0 is the invalid case instead.
    let negative = divide((-1.0f64).to_bits(), 0, context(DOUBLE));
    assert_eq!(negative.bits, DOUBLE.signed_infinity(true));

    let zero_over_zero = divide(0, 0, context(DOUBLE));
    assert!(zero_over_zero.raised.contains(FpExceptions::invalid()));
    assert!(!zero_over_zero.raised.contains(FpExceptions::divide_by_zero()));
}

#[test]
fn the_square_root_of_a_negative_is_invalid_but_of_negative_zero_is_not() {
    let negative = square_root((-1.0f64).to_bits(), context(DOUBLE));
    assert_eq!(negative.bits, DOUBLE.default_nan());
    assert!(negative.raised.contains(FpExceptions::invalid()));

    // sqrt(-0.0) = -0.0 is the exception the architecture makes.
    let negative_zero = square_root(DOUBLE.zero(true), context(DOUBLE));
    assert_eq!(negative_zero.bits, DOUBLE.zero(true));
    assert!(negative_zero.raised.is_empty());
}

#[test]
fn the_sign_of_a_zero_sum_follows_the_rounding_mode() {
    // x + (-x) is +0.0 in every mode but round-toward-minus-infinity.
    let mut toward_minus = context(DOUBLE);
    toward_minus.rounding = FpRounding::Minus;

    assert_eq!(
        add(
            1.0f64.to_bits(),
            (-1.0f64).to_bits(),
            false,
            context(DOUBLE)
        )
        .bits,
        0
    );
    assert_eq!(
        add(1.0f64.to_bits(), (-1.0f64).to_bits(), false, toward_minus).bits,
        DOUBLE.zero(true)
    );
}

#[test]
fn inexact_is_raised_exactly_when_the_result_was_rounded() {
    // 1 + 1 is exact; 0.1 + 0.2 is not.
    let exact = add(1.0f64.to_bits(), 1.0f64.to_bits(), false, context(DOUBLE));
    assert!(!exact.raised.contains(FpExceptions::inexact()));

    let rounded = add(0.1f64.to_bits(), 0.2f64.to_bits(), false, context(DOUBLE));
    assert!(rounded.raised.contains(FpExceptions::inexact()));
}

#[test]
fn overflow_and_underflow_are_flagged() {
    let overflowed = multiply(f64::MAX.to_bits(), 2.0f64.to_bits(), context(DOUBLE));
    assert_eq!(overflowed.bits, DOUBLE.infinity());
    assert!(overflowed.raised.contains(FpExceptions::overflow()));

    let underflowed = multiply(
        f64::MIN_POSITIVE.to_bits(),
        f64::MIN_POSITIVE.to_bits(),
        context(DOUBLE),
    );
    assert_eq!(underflowed.bits, 0);
    assert!(underflowed.raised.contains(FpExceptions::underflow()));
}

#[test]
fn a_flushed_subnormal_input_raises_input_denormal_and_reads_as_zero() {
    let mut flushing = context(DOUBLE);
    flushing.control.is_flush_to_zero = true;

    // The smallest subnormal plus one is 1.0 exactly once the subnormal is
    // flushed; without flushing the sum is inexact.
    let result = add(1.0f64.to_bits(), 1, false, flushing);

    assert_eq!(result.bits, 1.0f64.to_bits());
    assert!(result.raised.contains(FpExceptions::input_denormal()));
}

#[test]
fn a_signalling_nan_operand_propagates_quietened_from_every_operation() {
    let signalling = 0x7ff0_0000_0000_0001;
    let quietened = 0x7ff8_0000_0000_0001;
    let one = 1.0f64.to_bits();

    for result in [
        add(signalling, one, false, context(DOUBLE)),
        multiply(signalling, one, context(DOUBLE)),
        divide(signalling, one, context(DOUBLE)),
        square_root(signalling, context(DOUBLE)),
    ] {
        assert_eq!(result.bits, quietened);
        assert!(result.raised.contains(FpExceptions::invalid()));
    }
}

#[test]
fn arithmetic_agrees_with_the_host_across_a_pseudorandom_sweep() {
    // Fixed-seed sweep over normal-range values: a rounding bug that the
    // hand-picked cases miss shows up here.
    let mut state = 0x853c_49e6_748f_ea9bu64;
    let mut next = || {
        state ^= state << 13;
        state ^= state >> 7;
        state ^= state << 17;
        // Keep the exponent in a range where nothing overflows, so the
        // comparison is about rounding rather than about limits.
        f64::from_bits((state & 0x800f_ffff_ffff_ffff) | 0x3ff0_0000_0000_0000)
    };

    for _ in 0..2000 {
        let (lhs, rhs) = (next(), next());
        assert_eq!(add_double(lhs, rhs).to_bits(), (lhs + rhs).to_bits());
        assert_eq!(subtract(lhs, rhs).to_bits(), (lhs - rhs).to_bits());
        assert_eq!(
            double_op(multiply, lhs, rhs).to_bits(),
            (lhs * rhs).to_bits()
        );
        assert_eq!(double_op(divide, lhs, rhs).to_bits(), (lhs / rhs).to_bits());
        let root = f64::from_bits(square_root(lhs.abs().to_bits(), context(DOUBLE)).bits);
        assert_eq!(root.to_bits(), lhs.abs().sqrt().to_bits());
    }
}


#[test]
fn a_subnormal_result_that_rounds_up_reaches_the_smallest_normal() {
    // The largest single subnormal times the next float above one is just
    // under the smallest normal and rounds up to it.
    let single = Context {
        format: FpFormat::Single,
        rounding: FpRounding::Nearest,
        control: FpControl::reset(),
    };
    let product = multiply(0x007f_ffff, 0x3f80_0001, single);
    assert_eq!(product.bits, 0x0080_0000);
    assert_eq!(
        product.bits,
        (f32::from_bits(0x007f_ffff) * f32::from_bits(0x3f80_0001)).to_bits() as u64
    );
    assert!(product.raised.contains(FpExceptions::inexact()));
}

#[test]
fn an_aligned_sum_keeps_what_fell_below_it_in_the_sticky_bit() {
    let one = unpack(1.0f64.to_bits(), DOUBLE);
    let tiny = unpack((2.0f64).powi(-60).to_bits(), DOUBLE);
    let (sum, is_sticky) = add_finite(one, tiny, context(DOUBLE));
    assert_eq!(sum.exponent, 0);
    assert_eq!(sum.significand, one.significand, "the tiny addend is below every kept bit");
    assert!(is_sticky);

    let (difference, is_sticky) = add_finite(one, Unpacked { is_negative: true, ..tiny }, context(DOUBLE));
    assert_eq!(difference.significand, one.significand - 1, "a sticky subtraction borrows one unit");
    assert!(is_sticky);

    let half = unpack(0.5f64.to_bits(), DOUBLE);
    let (exact, is_sticky) = add_finite(one, half, context(DOUBLE));
    assert_eq!(exact.significand, one.significand + half.significand / 2);
    assert!(!is_sticky);
}

#[test]
fn a_dividend_is_read_through_its_own_format_fields() {
    let single = context(FpFormat::Single);
    let clean = divide(0x3f80_0000, 0x3f80_0000, single);
    let with_high_bits = divide(0x1_3f80_0000, 0x3f80_0000, single);
    assert_eq!(clean.bits, 0x3f80_0000);
    assert_eq!(with_high_bits, clean);
}
