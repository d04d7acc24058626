use lib::fp::operand::{FpFormat, FpRounding};
use lib::fp::softfloat::arithmetic::Context;
use lib::fp::softfloat::fused::{multiply_add, FusedOperands};

use lib::fp::control::{FpControl, FpExceptions};

const DOUBLE: FpFormat = FpFormat::Double;
const SINGLE: FpFormat = FpFormat::Single;

fn context(format: FpFormat) -> Context {
    Context {
        format,
        rounding: FpRounding::Nearest,
        control: FpControl::reset(),
    }
}

fn plain(multiplicand: u64, multiplier: u64, addend: u64) -> FusedOperands {
    FusedOperands {
        multiplicand,
        multiplier,
        addend,
        is_product_negated: false,
        is_addend_negated: false,
    }
}

fn fma_double(multiplicand: f64, multiplier: f64, addend: f64) -> f64 {
    let operands = plain(
        multiplicand.to_bits(),
        multiplier.to_bits(),
        addend.to_bits(),
    );
    f64::from_bits(multiply_add(operands, context(DOUBLE)).bits)
}

#[test]
fn fused_multiply_add_matches_the_hosts_own_fma() {
    // `f64::mul_add` is a genuine fused operation, so it is the right
    // oracle: it rounds once, exactly as this must.
    let cases = [
        (1.0, 2.0, 3.0),
        (0.1, 0.2, 0.3),
        (1.5, 2.5, -3.75),
        (1e300, 1e-300, 1.0),
        (123.456, 789.012, -0.5),
        (1.0 / 3.0, 3.0, -1.0),
        (f64::MIN_POSITIVE, 0.5, 1.0),
        (-2.5, 4.25, 10.0),
    ];

    for (multiplicand, multiplier, addend) in cases {
        assert_eq!(
            fma_double(multiplicand, multiplier, addend).to_bits(),
            multiplicand.mul_add(multiplier, addend).to_bits(),
            "fma({multiplicand}, {multiplier}, {addend})"
        );
    }
}

#[test]
fn the_product_is_not_rounded_before_the_addition() {
    // This is the case that separates FMA from FMUL+FADD. The exact
    // product needs more bits than a double holds, and the addend cancels
    // the leading ones, exposing bits a rounded product would have lost.
    let multiplicand = 1.0 + f64::EPSILON;
    let multiplier = 1.0 - f64::EPSILON;
    let addend = -1.0;

    let fused = fma_double(multiplicand, multiplier, addend);
    let unfused = multiplicand * multiplier + addend;

    assert_eq!(
        fused.to_bits(),
        multiplicand.mul_add(multiplier, addend).to_bits()
    );
    assert_ne!(
        fused.to_bits(),
        unfused.to_bits(),
        "a separately-rounded product would not expose these bits"
    );
}

#[test]
fn negating_the_product_and_the_addend_selects_the_four_mnemonics() {
    let (multiplicand, multiplier, addend) = (3.0f64, 5.0f64, 2.0f64);
    let build = |is_product_negated, is_addend_negated| {
        let operands = FusedOperands {
            multiplicand: multiplicand.to_bits(),
            multiplier: multiplier.to_bits(),
            addend: addend.to_bits(),
            is_product_negated,
            is_addend_negated,
        };
        f64::from_bits(multiply_add(operands, context(DOUBLE)).bits)
    };

    // FMADD, FMSUB, FNMSUB, FNMADD in the architecture's own terms.
    assert_eq!(build(false, false), 17.0, "addend + product");
    assert_eq!(build(true, false), -13.0, "addend - product");
    assert_eq!(build(false, true), 13.0, "product - addend");
    assert_eq!(build(true, true), -17.0, "-(addend + product)");
}

#[test]
fn an_infinite_product_plus_the_opposite_infinity_is_invalid() {
    let operands = plain(
        DOUBLE.infinity(),
        1.0f64.to_bits(),
        DOUBLE.signed_infinity(true),
    );
    let result = multiply_add(operands, context(DOUBLE));

    assert_eq!(result.bits, DOUBLE.default_nan());
    assert!(result.raised.contains(FpExceptions::invalid()));
}

#[test]
fn a_zero_times_infinity_product_is_invalid_whatever_the_addend() {
    let operands = plain(0, DOUBLE.infinity(), 1.0f64.to_bits());
    let result = multiply_add(operands, context(DOUBLE));

    assert_eq!(result.bits, DOUBLE.default_nan());
    assert!(result.raised.contains(FpExceptions::invalid()));
}

#[test]
fn a_signalling_nan_in_any_of_the_three_operands_propagates() {
    let signalling = 0x7ff0_0000_0000_0001;
    let one = 1.0f64.to_bits();

    for operands in [
        plain(signalling, one, one),
        plain(one, signalling, one),
        plain(one, one, signalling),
    ] {
        let result = multiply_add(operands, context(DOUBLE));
        assert_eq!(result.bits, 0x7ff8_0000_0000_0001);
        assert!(result.raised.contains(FpExceptions::invalid()));
    }
}

#[test]
fn single_precision_fma_matches_the_host() {
    for (multiplicand, multiplier, addend) in [
        (1.0f32, 2.0f32, 3.0f32),
        (0.1, 0.2, 0.3),
        (1.5, -2.5, 0.125),
    ] {
        let operands = plain(
            multiplicand.to_bits() as u64,
            multiplier.to_bits() as u64,
            addend.to_bits() as u64,
        );
        let result = multiply_add(operands, context(SINGLE));
        assert_eq!(
            (result.bits as u32),
            multiplicand.mul_add(multiplier, addend).to_bits(),
            "fma({multiplicand}, {multiplier}, {addend})"
        );
    }
}

#[test]
fn fused_multiply_add_agrees_with_the_host_across_a_pseudorandom_sweep() {
    let mut state = 0x9e37_79b9_7f4a_7c15u64;
    let mut next = || {
        state ^= state << 13;
        state ^= state >> 7;
        state ^= state << 17;
        f64::from_bits((state & 0x800f_ffff_ffff_ffff) | 0x3ff0_0000_0000_0000)
    };

    for _ in 0..2000 {
        let (multiplicand, multiplier, addend) = (next(), next(), next());
        assert_eq!(
            fma_double(multiplicand, multiplier, addend).to_bits(),
            multiplicand.mul_add(multiplier, addend).to_bits(),
            "fma({multiplicand}, {multiplier}, {addend})"
        );
    }
}

