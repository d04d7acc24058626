use lib::fp::backend::IntFormat;
use lib::fp::control::{FpControl, FpExceptions};
use lib::fp::operand::{FpFormat, FpRounding};
use lib::fp::softfloat::convert::{convert_format, from_fixed_point, from_integer, round_to_integral, to_fixed_point, to_integer};


const SINGLE: FpFormat = FpFormat::Single;
const DOUBLE: FpFormat = FpFormat::Double;
const HALF: FpFormat = FpFormat::Half;

fn to_signed_64(value: f64, rounding: FpRounding) -> u64 {
    to_integer(value.to_bits(), DOUBLE, IntFormat::s64(), rounding).bits
}

#[test]
fn widening_a_single_to_a_double_is_exact() {
    for value in [1.0f32, -2.5, 0.1, f32::MIN_POSITIVE, f32::MAX] {
        let result = convert_format(
            value.to_bits() as u64,
            SINGLE,
            DOUBLE,
            FpControl::reset(),
            FpRounding::Nearest,
        );
        assert_eq!(
            f64::from_bits(result.bits).to_bits(),
            (value as f64).to_bits(),
            "{value}"
        );
        assert!(result.raised.is_empty(), "widening never rounds");
    }
}

#[test]
fn narrowing_a_double_to_a_single_matches_the_hosts_cast() {
    for value in [1.0f64, -2.5, 0.1, 1.0 / 3.0, 1e-300, 1e300, 123456.789] {
        let result = convert_format(
            value.to_bits(),
            DOUBLE,
            SINGLE,
            FpControl::reset(),
            FpRounding::Nearest,
        );
        assert_eq!(result.bits as u32, (value as f32).to_bits(), "{value}");
    }
}

#[test]
fn narrowing_preserves_infinities_and_signed_zeroes() {
    let cases = [
        (f64::INFINITY.to_bits(), f32::INFINITY.to_bits()),
        (f64::NEG_INFINITY.to_bits(), f32::NEG_INFINITY.to_bits()),
        (0.0f64.to_bits(), 0.0f32.to_bits()),
        ((-0.0f64).to_bits(), (-0.0f32).to_bits()),
    ];

    for (source, expected) in cases {
        let result = convert_format(
            source,
            DOUBLE,
            SINGLE,
            FpControl::reset(),
            FpRounding::Nearest,
        );
        assert_eq!(result.bits as u32, expected);
    }
}

#[test]
fn a_signalling_nan_converts_to_a_quiet_one_and_raises() {
    let result = convert_format(
        0x7f80_0001,
        SINGLE,
        DOUBLE,
        FpControl::reset(),
        FpRounding::Nearest,
    );

    assert!(DOUBLE.is_nan(result.bits));
    assert!(!DOUBLE.is_signalling_nan(result.bits), "quietened");
    assert!(result.raised.contains(FpExceptions::invalid()));
}

#[test]
fn half_precision_round_trips_through_single() {
    // 1.0 and 2.0 are exact in both, so a scale error would show up.
    for value in [1.0f32, 2.0, -0.5, 0.0] {
        let narrowed = convert_format(
            value.to_bits() as u64,
            SINGLE,
            HALF,
            FpControl::reset(),
            FpRounding::Nearest,
        );
        let widened = convert_format(
            narrowed.bits,
            HALF,
            SINGLE,
            FpControl::reset(),
            FpRounding::Nearest,
        );
        assert_eq!(f32::from_bits(widened.bits as u32), value, "{value}");
    }
}

#[test]
fn converting_to_a_signed_integer_truncates_toward_zero() {
    let cases = [
        (1.9f64, 1i64),
        (-1.9, -1),
        (0.5, 0),
        (-0.5, 0),
        (2.0, 2),
        (-1000.75, -1000),
        (1e15, 1_000_000_000_000_000),
    ];

    for (value, expected) in cases {
        assert_eq!(
            to_signed_64(value, FpRounding::Zero) as i64,
            expected,
            "trunc({value})"
        );
    }
}

#[test]
fn each_rounding_mode_moves_the_expected_way() {
    let value = 2.5f64;
    let expected = [
        (FpRounding::Zero, 2i64),
        (FpRounding::Plus, 3),
        (FpRounding::Minus, 2),
        (FpRounding::Nearest, 2),
        (FpRounding::NearestAway, 3),
    ];

    for (rounding, want) in expected {
        assert_eq!(to_signed_64(value, rounding) as i64, want, "{rounding:?}");
    }

    // A negative operand flips which directed mode rounds away.
    assert_eq!(to_signed_64(-2.5, FpRounding::Minus) as i64, -3);
    assert_eq!(to_signed_64(-2.5, FpRounding::Plus) as i64, -2);
    // Ties to even rounds 3.5 up and 2.5 down.
    assert_eq!(to_signed_64(3.5, FpRounding::Nearest) as i64, 4);
}

#[test]
fn an_out_of_range_conversion_saturates_and_raises_invalid() {
    let too_big = to_integer(1e300f64.to_bits(), DOUBLE, IntFormat::s32(), FpRounding::Zero);
    assert_eq!(too_big.bits as u32, i32::MAX as u32);
    assert!(too_big.raised.contains(FpExceptions::invalid()));

    let too_small = to_integer(
        (-1e300f64).to_bits(),
        DOUBLE,
        IntFormat::s32(),
        FpRounding::Zero,
    );
    assert_eq!(too_small.bits as u32, i32::MIN as u32);
    assert!(too_small.raised.contains(FpExceptions::invalid()));
}

#[test]
fn a_negative_value_converts_to_zero_and_raises_for_an_unsigned_target() {
    let result = to_integer(
        (-1.5f64).to_bits(),
        DOUBLE,
        IntFormat::u64(),
        FpRounding::Zero,
    );

    assert_eq!(result.bits, 0);
    assert!(result.raised.contains(FpExceptions::invalid()));
}

#[test]
fn a_nan_converts_to_zero_rather_than_a_saturated_value() {
    // This is the case that separates a conversion from a saturating cast.
    let result = to_integer(f64::NAN.to_bits(), DOUBLE, IntFormat::s64(), FpRounding::Zero);

    assert_eq!(result.bits, 0);
    assert!(result.raised.contains(FpExceptions::invalid()));
}

#[test]
fn an_infinity_saturates_with_the_right_sign() {
    let positive = to_integer(
        f64::INFINITY.to_bits(),
        DOUBLE,
        IntFormat::s64(),
        FpRounding::Zero,
    );
    assert_eq!(positive.bits as i64, i64::MAX);

    let negative = to_integer(
        f64::NEG_INFINITY.to_bits(),
        DOUBLE,
        IntFormat::s64(),
        FpRounding::Zero,
    );
    assert_eq!(negative.bits as i64, i64::MIN);
}

#[test]
fn integer_to_fp_matches_the_hosts_own_cast() {
    let signed = [
        0i64,
        1,
        -1,
        42,
        -42,
        1 << 40,
        -(1 << 40),
        i64::MAX,
        i64::MIN,
    ];

    for value in signed {
        let result = from_integer(
            value as u64,
            IntFormat::s64(),
            DOUBLE,
            FpRounding::Nearest,
            FpControl::reset(),
        );
        assert_eq!(
            f64::from_bits(result.bits).to_bits(),
            (value as f64).to_bits(),
            "{value} as f64"
        );
    }

    for value in [0u64, 1, u64::MAX, 1 << 63, 12345678901234567890] {
        let result = from_integer(
            value,
            IntFormat::u64(),
            DOUBLE,
            FpRounding::Nearest,
            FpControl::reset(),
        );
        assert_eq!(
            f64::from_bits(result.bits).to_bits(),
            (value as f64).to_bits(),
            "{value} as f64"
        );
    }
}

#[test]
fn a_32_bit_source_reads_only_its_own_width() {
    // The upper half of the register is not part of a W-form operand, so
    // rubbish there must not change the result.
    let result = from_integer(
        0xdead_beef_0000_002a,
        IntFormat::s32(),
        DOUBLE,
        FpRounding::Nearest,
        FpControl::reset(),
    );

    assert_eq!(f64::from_bits(result.bits), 42.0);
}

#[test]
fn a_negative_32_bit_integer_sign_extends_from_its_own_width() {
    let result = from_integer(
        0xffff_ffffu64,
        IntFormat::s32(),
        DOUBLE,
        FpRounding::Nearest,
        FpControl::reset(),
    );

    assert_eq!(f64::from_bits(result.bits), -1.0);

    // The same bits read as unsigned are a large positive number.
    let unsigned = from_integer(
        0xffff_ffffu64,
        IntFormat::u32(),
        DOUBLE,
        FpRounding::Nearest,
        FpControl::reset(),
    );
    assert_eq!(f64::from_bits(unsigned.bits), 4294967295.0);
}

#[test]
fn round_to_integral_matches_the_hosts_own_rounding() {
    let cases = [
        (1.5f64, FpRounding::Nearest, 2.0),
        (2.5, FpRounding::Nearest, 2.0),
        (-1.5, FpRounding::Nearest, -2.0),
        (1.5, FpRounding::NearestAway, 2.0),
        (2.5, FpRounding::NearestAway, 3.0),
        (1.1, FpRounding::Plus, 2.0),
        (1.9, FpRounding::Minus, 1.0),
        (-1.1, FpRounding::Zero, -1.0),
        (0.4, FpRounding::Nearest, 0.0),
        (1e300, FpRounding::Nearest, 1e300),
    ];

    for (value, rounding, expected) in cases {
        let result = round_to_integral(value.to_bits(), DOUBLE, rounding, FpControl::reset());
        assert_eq!(
            f64::from_bits(result.bits),
            expected,
            "rint({value}, {rounding:?})"
        );
    }
}

#[test]
fn round_to_integral_keeps_the_sign_of_a_zero_result() {
    // rint(-0.4) is -0.0, not +0.0. A sign lost here is invisible until a
    // differential run compares bit patterns.
    let result = round_to_integral(
        (-0.4f64).to_bits(),
        DOUBLE,
        FpRounding::Nearest,
        FpControl::reset(),
    );

    assert_eq!(result.bits, DOUBLE.zero(true));
}

#[test]
fn round_to_integral_leaves_infinities_and_nans_alone() {
    let infinity = round_to_integral(
        f64::INFINITY.to_bits(),
        DOUBLE,
        FpRounding::Nearest,
        FpControl::reset(),
    );
    assert_eq!(infinity.bits, DOUBLE.infinity());

    let nan = round_to_integral(
        0x7ff0_0000_0000_0001,
        DOUBLE,
        FpRounding::Nearest,
        FpControl::reset(),
    );
    assert!(DOUBLE.is_nan(nan.bits));
    assert!(nan.raised.contains(FpExceptions::invalid()));
}

#[test]
fn conversions_agree_with_the_host_across_a_pseudorandom_sweep() {
    let mut state = 0xd1b5_4a32_d192_ed03u64;
    let mut next = || {
        state ^= state << 13;
        state ^= state >> 7;
        state ^= state << 17;
        state
    };

    for _ in 0..2000 {
        let raw = next();
        let value = f64::from_bits((raw & 0x800f_ffff_ffff_ffff) | 0x40b0_0000_0000_0000);

        assert_eq!(
            to_signed_64(value, FpRounding::Zero) as i64,
            value as i64,
            "trunc({value})"
        );
        let narrowed = convert_format(
            value.to_bits(),
            DOUBLE,
            SINGLE,
            FpControl::reset(),
            FpRounding::Nearest,
        );
        assert_eq!(narrowed.bits as u32, (value as f32).to_bits(), "{value}");

        let integer = raw as i64;
        let converted = from_integer(
            integer as u64,
            IntFormat::s64(),
            DOUBLE,
            FpRounding::Nearest,
            FpControl::reset(),
        );
        assert_eq!(
            f64::from_bits(converted.bits).to_bits(),
            (integer as f64).to_bits(),
            "{integer} as f64"
        );
    }
}


#[test]
fn a_fixed_point_conversion_scales_before_rounding() {
    // 1.5 with four fractional bits is 1.5 * 16 = 24.
    let result = to_fixed_point(1.5f64.to_bits(), DOUBLE, IntFormat::s32(), FpRounding::Zero, 4);
    assert_eq!(result.bits, 24);
    assert!(result.raised.is_empty());

    // 0.1 * 2 = 0.2 truncates to zero, inexactly.
    let inexact = to_fixed_point(0.1f64.to_bits(), DOUBLE, IntFormat::s32(), FpRounding::Zero, 1);
    assert_eq!(inexact.bits, 0);
    assert!(inexact.raised.contains(FpExceptions::inexact()));

    // A negative value in two's complement within 32 bits: -2.25 * 4 = -9.
    let negative = to_fixed_point((-2.25f64).to_bits(), DOUBLE, IntFormat::s32(), FpRounding::Zero, 2);
    assert_eq!(negative.bits, 0xffff_fff7);
}

#[test]
fn a_fixed_point_source_is_divided_after_converting() {
    // 24 with four fractional bits is 1.5.
    let result = from_fixed_point(24, IntFormat::s32(), DOUBLE, FpRounding::Nearest, FpControl::reset(), 4);
    assert_eq!(f64::from_bits(result.bits), 1.5);

    // -9 in 32-bit two's complement with two fractional bits is -2.25.
    let negative = from_fixed_point(0xffff_fff7, IntFormat::s32(), SINGLE, FpRounding::Nearest, FpControl::reset(), 2);
    assert_eq!(f32::from_bits(negative.bits as u32), -2.25);
}

#[test]
fn converting_an_integer_wider_than_the_significand_rounds_in_the_given_mode() {
    // 2^53 + 1 is not a double; to nearest it ties to even (2^53), upward it
    // goes to 2^53 + 2.
    let value = (1u64 << 53) + 1;
    let nearest = from_integer(value, IntFormat::u64(), DOUBLE, FpRounding::Nearest, FpControl::reset());
    let upward = from_integer(value, IntFormat::u64(), DOUBLE, FpRounding::Plus, FpControl::reset());
    assert_eq!(f64::from_bits(nearest.bits), 9007199254740992.0);
    assert_eq!(f64::from_bits(upward.bits), 9007199254740994.0);
    assert!(nearest.raised.contains(FpExceptions::inexact()));
}
