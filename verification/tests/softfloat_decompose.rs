use lib::fp::control::{FpControl, FpExceptions};
use lib::fp::operand::{FpFormat, FpRounding};
use lib::fp::softfloat::decompose::{implicit_bit, round_and_pack, unpack, RoundingContext, Unpacked, GUARD_BITS};


const SINGLE: FpFormat = FpFormat::Single;
const DOUBLE: FpFormat = FpFormat::Double;

fn context(rounding: FpRounding) -> RoundingContext {
    RoundingContext {
        rounding,
        is_sticky: false,
        control: FpControl::reset(),
    }
}

/// Unpack then repack must be the identity for every finite value.
fn round_trip(bits: u64, format: FpFormat) -> u64 {
    round_and_pack(unpack(bits, format), format, context(FpRounding::Nearest)).bits
}

#[test]
fn unpacking_a_normal_value_exposes_the_implicit_bit() {
    let one = unpack(1.0f32.to_bits() as u64, SINGLE);

    assert!(!one.is_negative);
    assert_eq!(one.exponent, 0, "1.0 is 1.significand x 2^0");
    assert_eq!(one.significand, implicit_bit(SINGLE));
}

#[test]
fn unpacking_normalises_a_subnormal() {
    // The smallest single subnormal is 2^-149.
    let smallest = unpack(1, SINGLE);

    assert_eq!(smallest.exponent, -149);
    assert_eq!(smallest.significand, implicit_bit(SINGLE));
}

#[test]
fn unpacking_distinguishes_the_two_zeroes() {
    assert!(unpack(0, SINGLE).is_zero());
    assert!(!unpack(0, SINGLE).is_negative);
    assert!(unpack(0x8000_0000, SINGLE).is_zero());
    assert!(unpack(0x8000_0000, SINGLE).is_negative);
}

#[test]
fn packing_an_unpacked_value_returns_the_original_bits() {
    let values = [
        0u64,
        0x8000_0000,
        1.0f32.to_bits() as u64,
        (-2.5f32).to_bits() as u64,
        f32::MIN_POSITIVE.to_bits() as u64,
        f32::MAX.to_bits() as u64,
        1,
        0x007f_ffff,
        (1.0f32 / 3.0).to_bits() as u64,
    ];

    for bits in values {
        assert_eq!(round_trip(bits, SINGLE), bits, "single {bits:#x}");
    }

    for bits in [
        1.0f64.to_bits(),
        (-1.0e-300f64).to_bits(),
        f64::MAX.to_bits(),
        f64::MIN_POSITIVE.to_bits(),
        1,
    ] {
        assert_eq!(round_trip(bits, DOUBLE), bits, "double {bits:#x}");
    }
}

#[test]
fn rounding_to_nearest_breaks_ties_toward_an_even_significand() {
    // A significand of ...1 with exactly half discarded rounds up; ...0
    // stays. Build both directly in unpacked form.
    let half = 1u64 << (GUARD_BITS - 1);
    let odd = Unpacked {
        is_negative: false,
        exponent: 0,
        significand: implicit_bit(SINGLE) | (1 << GUARD_BITS) | half,
    };
    let even = Unpacked {
        is_negative: false,
        exponent: 0,
        significand: implicit_bit(SINGLE) | half,
    };

    let rounded_odd = round_and_pack(odd, SINGLE, context(FpRounding::Nearest));
    let rounded_even = round_and_pack(even, SINGLE, context(FpRounding::Nearest));

    assert_eq!(rounded_odd.bits & 0b11, 0b10, "rounded up to even");
    assert_eq!(rounded_even.bits & 0b1, 0, "stayed even");
    assert!(rounded_odd.raised.contains(FpExceptions::inexact()));
}

#[test]
fn directed_rounding_moves_the_expected_way() {
    let half = 1u64 << (GUARD_BITS - 1);
    let build = |is_negative| Unpacked {
        is_negative,
        exponent: 0,
        significand: implicit_bit(SINGLE) | half,
    };

    let up = round_and_pack(build(false), SINGLE, context(FpRounding::Plus));
    let down = round_and_pack(build(false), SINGLE, context(FpRounding::Minus));
    assert_eq!(up.bits, down.bits + 1, "toward +inf exceeds toward -inf");

    // The signs swap which mode rounds away from zero.
    let negative_up = round_and_pack(build(true), SINGLE, context(FpRounding::Plus));
    let negative_down = round_and_pack(build(true), SINGLE, context(FpRounding::Minus));
    assert_eq!(negative_down.bits, negative_up.bits + 1);
}

#[test]
fn overflow_goes_to_infinity_or_the_largest_finite_by_mode() {
    let huge = Unpacked {
        is_negative: false,
        exponent: 200,
        significand: implicit_bit(SINGLE),
    };

    assert_eq!(
        round_and_pack(huge, SINGLE, context(FpRounding::Nearest)).bits,
        SINGLE.infinity()
    );
    assert_eq!(
        round_and_pack(huge, SINGLE, context(FpRounding::Zero)).bits,
        SINGLE.max_finite(),
        "toward zero cannot reach infinity"
    );
    assert_eq!(
        round_and_pack(huge, SINGLE, context(FpRounding::Minus)).bits,
        SINGLE.max_finite(),
        "a positive overflow toward -inf stops at the largest finite"
    );

    let raised = round_and_pack(huge, SINGLE, context(FpRounding::Nearest)).raised;
    assert!(raised.contains(FpExceptions::overflow()));
    assert!(raised.contains(FpExceptions::inexact()));
}

#[test]
fn a_result_below_the_smallest_subnormal_underflows_to_zero() {
    let tiny = Unpacked {
        is_negative: false,
        exponent: -200,
        significand: implicit_bit(SINGLE),
    };

    let result = round_and_pack(tiny, SINGLE, context(FpRounding::Nearest));
    assert_eq!(result.bits, 0);
    assert!(result.raised.contains(FpExceptions::underflow()));
    assert!(result.raised.contains(FpExceptions::inexact()));
}

#[test]
fn flush_to_zero_replaces_a_subnormal_result_and_flags_it() {
    let control = FpControl {
        is_flush_to_zero: true,
        ..FpControl::reset()
    };
    let subnormal = unpack(1, SINGLE);

    let result = round_and_pack(
        subnormal,
        SINGLE,
        RoundingContext {
            rounding: FpRounding::Nearest,
            is_sticky: false,
            control,
        },
    );

    assert_eq!(result.bits, 0);
    assert!(result.raised.contains(FpExceptions::underflow()));
    // Without FZ the same value is exact, so this pins that FZ is what
    // introduced the flags.
    assert_eq!(round_trip(1, SINGLE), 1);
}

#[test]
fn flush_to_zero_keeps_the_sign_of_what_it_flushed() {
    let control = FpControl {
        is_flush_to_zero: true,
        ..FpControl::reset()
    };
    let result = round_and_pack(
        unpack(0x8000_0001, SINGLE),
        SINGLE,
        RoundingContext {
            rounding: FpRounding::Nearest,
            is_sticky: false,
            control,
        },
    );

    assert_eq!(result.bits, 0x8000_0000, "negative zero, not positive");
}

#[test]
fn fp16_flushing_is_keyed_on_its_own_control_bit() {
    let fz_only = FpControl {
        is_flush_to_zero: true,
        ..FpControl::reset()
    };
    let context_for = |control| RoundingContext {
        rounding: FpRounding::Nearest,
        is_sticky: false,
        control,
    };

    // FZ alone must not flush a half-precision subnormal; FZ16 must.
    assert_eq!(
        round_and_pack(
            unpack(1, FpFormat::Half),
            FpFormat::Half,
            context_for(fz_only)
        )
        .bits,
        1
    );
    let fz16 = FpControl {
        is_flush_to_zero_fp16: true,
        ..FpControl::reset()
    };
    assert_eq!(
        round_and_pack(unpack(1, FpFormat::Half), FpFormat::Half, context_for(fz16)).bits,
        0
    );
}


#[test]
fn packing_an_unpacked_half_precision_value_in_any_mode_returns_its_bits() {
    // The round trip holds in every rounding mode, for normals and
    // subnormals alike, with nothing raised.
    for bits in [0x3c00u64, 0x0001, 0x03ff, 0x8400, 0x7bff, 0xfbff] {
        for rounding in [FpRounding::Nearest, FpRounding::Plus, FpRounding::Minus, FpRounding::Zero] {
            let result = round_and_pack(unpack(bits, FpFormat::Half), FpFormat::Half, context(rounding));
            assert_eq!(result.bits, bits, "{bits:#x} {rounding:?}");
            assert!(result.raised.is_empty());
        }
    }
}

#[test]
fn directed_rounding_gives_adjacent_encodings_across_binades_and_ranges() {
    let half = 1u64 << (GUARD_BITS - 1);
    // Just above the largest finite single: toward minus stops at the
    // largest finite value, toward plus reaches infinity, one encoding up.
    let beyond = Unpacked {
        is_negative: false,
        exponent: 127,
        significand: (2 * implicit_bit(SINGLE) - 8) | half,
    };
    let up = round_and_pack(beyond, SINGLE, context(FpRounding::Plus));
    let down = round_and_pack(beyond, SINGLE, context(FpRounding::Minus));
    assert_eq!(down.bits, SINGLE.max_finite());
    assert_eq!(up.bits, SINGLE.infinity());
    assert_eq!(up.bits, down.bits + 1);

    // Just below the smallest normal, negative: toward minus reaches it.
    let tiny = Unpacked {
        is_negative: true,
        exponent: -127,
        significand: (2 * implicit_bit(SINGLE) - 8) | half,
    };
    let away = round_and_pack(tiny, SINGLE, context(FpRounding::Minus));
    let toward = round_and_pack(tiny, SINGLE, context(FpRounding::Plus));
    assert_eq!(away.bits, 0x8080_0000, "the negative smallest normal");
    assert_eq!(away.bits, toward.bits + 1);
}

#[test]
fn every_rounding_mode_picks_one_of_the_two_directed_results() {
    let half = 1u64 << (GUARD_BITS - 1);
    for (is_negative, significand, is_sticky) in [
        (false, implicit_bit(SINGLE) | half, false),
        (false, implicit_bit(SINGLE) | (1 << GUARD_BITS) | half, false),
        (true, implicit_bit(SINGLE) | 1, true),
        (true, (2 * implicit_bit(SINGLE) - 8) | 5, false),
    ] {
        let value = Unpacked { is_negative, exponent: 3, significand };
        let with = |rounding| {
            round_and_pack(
                value,
                SINGLE,
                RoundingContext { rounding, is_sticky, control: FpControl::reset() },
            )
        };
        let (away, toward) = if is_negative {
            (with(FpRounding::Minus), with(FpRounding::Plus))
        } else {
            (with(FpRounding::Plus), with(FpRounding::Minus))
        };
        assert_eq!(away.bits, toward.bits + 1);
        assert_eq!(with(FpRounding::Zero), toward);
        for rounding in [FpRounding::Nearest, FpRounding::NearestAway, FpRounding::Odd] {
            let result = with(rounding);
            assert!(result == away || result == toward, "{rounding:?}");
        }
    }
}
