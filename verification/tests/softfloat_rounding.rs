use lib::fp::backend::IntFormat;
use lib::fp::control::FpControl;
use lib::fp::operand::{FpFormat, FpRounding};
use lib::fp::softfloat::arithmetic::{add, divide, multiply, square_root, Context};
use lib::fp::softfloat::convert::{convert_format, from_integer, round_to_integral, to_integer};
use lib::fp::softfloat::fused::{multiply_add, FusedOperands};

const SINGLE: FpFormat = FpFormat::Single;
const DOUBLE: FpFormat = FpFormat::Double;

fn in_mode(format: FpFormat, rounding: FpRounding) -> Context {
    Context { format, rounding, control: FpControl::reset() }
}

#[test]
fn a_third_rounds_to_the_neighbour_each_mode_names() {
    let (one, three) = (1.0f32.to_bits() as u64, 3.0f32.to_bits() as u64);
    let quotient = |rounding| divide(one, three, in_mode(SINGLE, rounding)).bits;
    assert_eq!(quotient(FpRounding::Nearest), 0x3eaa_aaab);
    assert_eq!(quotient(FpRounding::NearestAway), 0x3eaa_aaab);
    assert_eq!(quotient(FpRounding::Zero), 0x3eaa_aaaa);
    assert_eq!(quotient(FpRounding::Minus), 0x3eaa_aaaa);
    assert_eq!(quotient(FpRounding::Plus), 0x3eaa_aaab);

    let minus_one = (-1.0f32).to_bits() as u64;
    let negative = |rounding| divide(minus_one, three, in_mode(SINGLE, rounding)).bits;
    assert_eq!(negative(FpRounding::Plus), 0xbeaa_aaaa);
    assert_eq!(negative(FpRounding::Minus), 0xbeaa_aaab);
    assert_eq!(negative(FpRounding::Zero), 0xbeaa_aaaa);
}

#[test]
fn a_sum_halfway_between_two_doubles_goes_to_the_even_one() {
    let one = 1.0f64.to_bits();
    let half_unit = (2.0f64).powi(-53).to_bits();
    let three_half_units = (3.0 * (2.0f64).powi(-53)).to_bits();
    let sum = |rhs, rounding| add(one, rhs, false, in_mode(DOUBLE, rounding)).bits;
    assert_eq!(sum(half_unit, FpRounding::Nearest), 0x3ff0_0000_0000_0000);
    assert_eq!(sum(three_half_units, FpRounding::Nearest), 0x3ff0_0000_0000_0002);
    assert_eq!(sum(half_unit, FpRounding::NearestAway), 0x3ff0_0000_0000_0001);
    assert_eq!(sum(half_unit, FpRounding::Plus), 0x3ff0_0000_0000_0001);
    assert_eq!(sum(half_unit, FpRounding::Zero), 0x3ff0_0000_0000_0000);
    // A difference that drops bits below its last place still rounds as the
    // exact difference does.
    let difference = |rounding| add(one, half_unit, true, in_mode(DOUBLE, rounding)).bits;
    assert_eq!(difference(FpRounding::Nearest), 0x3fef_ffff_ffff_ffff);
    assert_eq!(difference(FpRounding::Zero), 0x3fef_ffff_ffff_ffff);
}

#[test]
fn a_product_that_needs_more_bits_is_rounded_by_mode() {
    let factor = f32::from_bits(0x3f80_0001).to_bits() as u64;
    let product = |rounding| multiply(factor, factor, in_mode(SINGLE, rounding)).bits;
    assert_eq!(product(FpRounding::Zero), 0x3f80_0002);
    assert_eq!(product(FpRounding::Nearest), 0x3f80_0002);
    assert_eq!(product(FpRounding::Plus), 0x3f80_0003);
}

#[test]
fn the_root_of_two_rounds_to_the_neighbour_each_mode_names() {
    let two = 2.0f32.to_bits() as u64;
    let root = |rounding| square_root(two, in_mode(SINGLE, rounding)).bits;
    assert_eq!(root(FpRounding::Nearest), 0x3fb5_04f3);
    assert_eq!(root(FpRounding::Minus), 0x3fb5_04f3);
    assert_eq!(root(FpRounding::Zero), 0x3fb5_04f3);
    assert_eq!(root(FpRounding::Plus), 0x3fb5_04f4);
}

#[test]
fn narrowing_a_third_rounds_by_mode() {
    let third = (1.0f64 / 3.0).to_bits();
    let narrowed = |rounding| convert_format(third, DOUBLE, SINGLE, FpControl::reset(), rounding).bits;
    assert_eq!(narrowed(FpRounding::Nearest), 0x3eaa_aaab);
    assert_eq!(narrowed(FpRounding::Zero), 0x3eaa_aaaa);
    assert_eq!(narrowed(FpRounding::Plus), 0x3eaa_aaab);
}

#[test]
fn an_integer_between_two_singles_rounds_by_mode() {
    let value = (1u64 << 24) + 1;
    let converted = |rounding| from_integer(value, IntFormat::u64(), SINGLE, rounding, FpControl::reset()).bits;
    assert_eq!(converted(FpRounding::Nearest), 0x4b80_0000);
    assert_eq!(converted(FpRounding::Plus), 0x4b80_0001);
    assert_eq!(converted(FpRounding::Zero), 0x4b80_0000);
    let above = (1u64 << 24) + 3;
    let rounded = from_integer(above, IntFormat::u64(), SINGLE, FpRounding::Nearest, FpControl::reset()).bits;
    assert_eq!(rounded, 0x4b80_0002);
}

#[test]
fn a_fraction_rounds_to_the_integer_each_mode_names() {
    let integer = |value: f64, rounding| to_integer(value.to_bits(), DOUBLE, IntFormat::s64(), rounding).bits as i64;
    assert_eq!(integer(2.5, FpRounding::Nearest), 2);
    assert_eq!(integer(3.5, FpRounding::Nearest), 4);
    assert_eq!(integer(-2.5, FpRounding::NearestAway), -3);
    assert_eq!(integer(2.1, FpRounding::Plus), 3);
    assert_eq!(integer(-2.1, FpRounding::Minus), -3);
    assert_eq!(integer(-2.9, FpRounding::Zero), -2);
    assert_eq!(integer(0.25, FpRounding::Plus), 1);
    assert_eq!(integer(0.25, FpRounding::Nearest), 0);

    let integral = |value: f64, rounding| f64::from_bits(round_to_integral(value.to_bits(), DOUBLE, rounding, FpControl::reset()).bits);
    assert_eq!(integral(2.5, FpRounding::Nearest), 2.0);
    assert_eq!(integral(2.5, FpRounding::NearestAway), 3.0);
    assert_eq!(integral(-0.75, FpRounding::Minus), -1.0);
    assert_eq!(integral(0.75, FpRounding::Zero), 0.0);
}

#[test]
fn a_fused_cancellation_is_rounded_once_by_mode() {
    let just_above_one = 0x3ff0_0000_0000_0001u64;
    let operands = FusedOperands {
        multiplicand: just_above_one,
        multiplier: just_above_one,
        addend: (-1.0f64).to_bits(),
        is_product_negated: false,
        is_addend_negated: false,
    };
    let fused = |rounding| multiply_add(operands, in_mode(DOUBLE, rounding)).bits;
    assert_eq!(fused(FpRounding::Nearest), 0x3cc0_0000_0000_0000);
    assert_eq!(fused(FpRounding::Zero), 0x3cc0_0000_0000_0000);
    assert_eq!(fused(FpRounding::Plus), 0x3cc0_0000_0000_0001);
}
