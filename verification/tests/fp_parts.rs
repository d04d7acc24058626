use lib::fp::backend::{
    FpBackend, FpBinaryOp, FpFmaOperands, FpOperands, FpSignOp, FpUnaryOp, FpValue, FromIntegerSource, ToIntegerTarget,
};
use lib::fp::control::{accumulate, is_default_mode_bits, FpControl, FpExceptions, FPCR_AHP, FPCR_DN, FPCR_FZ, FPCR_FZ16, FPCR_RMODE_LSB};
use lib::fp::operand::{FpComparison, FpFormat, FpResult, FpRounding};

#[test]
fn format_geometry_matches_ieee_754() {
    let expected = [
        (FpFormat::Half, 16, 10, 5, 15),
        (FpFormat::Single, 32, 23, 8, 127),
        (FpFormat::Double, 64, 52, 11, 1023),
    ];

    for (format, bits, mantissa, exponent, bias) in expected {
        assert_eq!(format.bits(), bits, "{format:?} width");
        assert_eq!(format.mantissa_bits(), mantissa, "{format:?} mantissa");
        assert_eq!(format.exponent_bits(), exponent, "{format:?} exponent");
        assert_eq!(format.exponent_bias(), bias, "{format:?} bias");
    }
}

#[test]
fn the_named_constants_match_the_hosts_own_float_encodings() {
    // Cross-checked against the host's f32/f64 rather than hand-computed, so a
    // transposed shift cannot pass.
    assert_eq!(FpFormat::Single.infinity(), f32::INFINITY.to_bits() as u64);
    assert_eq!(FpFormat::Double.infinity(), f64::INFINITY.to_bits());
    assert_eq!(FpFormat::Single.max_finite(), f32::MAX.to_bits() as u64);
    assert_eq!(FpFormat::Double.max_finite(), f64::MAX.to_bits());
    assert_eq!(FpFormat::Single.default_nan(), 0x7fc0_0000);
    assert_eq!(FpFormat::Double.default_nan(), 0x7ff8_0000_0000_0000);
    assert_eq!(FpFormat::Half.default_nan(), 0x7e00);
}

#[test]
fn classification_separates_nan_infinity_zero_and_subnormal() {
    let single = FpFormat::Single;

    assert!(single.is_nan(single.default_nan()));
    assert!(!single.is_nan(single.infinity()));
    assert!(single.is_infinite(single.infinity()));
    assert!(!single.is_infinite(single.default_nan()));
    assert!(single.is_zero(0));
    assert!(single.is_zero(0x8000_0000), "negative zero is a zero");
    assert!(!single.is_zero(1));
    assert!(single.is_subnormal(1), "the smallest subnormal");
    assert!(!single.is_subnormal(0), "zero is not subnormal");
    assert!(!single.is_subnormal(1.0f32.to_bits() as u64));
}

#[test]
fn a_signalling_nan_is_a_nan_with_a_clear_quiet_bit() {
    let single = FpFormat::Single;
    let signalling = 0x7f80_0001;
    let quiet = 0x7fc0_0001;

    assert!(single.is_signalling_nan(signalling));
    assert!(!single.is_signalling_nan(quiet));
    assert!(single.is_nan(signalling) && single.is_nan(quiet));
    // Quietening keeps the payload, which is what NaN propagation requires.
    assert_eq!(single.quieten(signalling), quiet);
    assert_eq!(single.quieten(quiet), quiet, "already quiet");
    assert_eq!(single.quieten(0), 0, "not a NaN");
}

#[test]
fn comparison_outcomes_map_to_the_architectures_nzcv_values() {
    assert_eq!(FpComparison::Less.to_nzcv(), 0b1000);
    assert_eq!(FpComparison::Equal.to_nzcv(), 0b0110);
    assert_eq!(FpComparison::Greater.to_nzcv(), 0b0010);
    assert_eq!(FpComparison::Unordered.to_nzcv(), 0b0011);
}

#[test]
fn rmode_maps_to_rounding_in_encoding_order() {
    assert_eq!(FpRounding::from_rmode(0b00), FpRounding::Nearest);
    assert_eq!(FpRounding::from_rmode(0b01), FpRounding::Plus);
    assert_eq!(FpRounding::from_rmode(0b10), FpRounding::Minus);
    assert_eq!(FpRounding::from_rmode(0b11), FpRounding::Zero);
}

#[test]
fn signs_zeros_and_infinities_are_built_from_the_sign_bit() {
    assert_eq!(FpFormat::Double.zero(true), (-0.0f64).to_bits());
    assert_eq!(FpFormat::Double.signed_infinity(true), f64::NEG_INFINITY.to_bits());
    assert!(FpFormat::Half.is_negative(0x8001));
    assert!(!FpFormat::Half.is_negative(0x7fff));
    assert_eq!(FpResult::exact(5), FpResult::raising(5, FpExceptions::none()));
}

#[test]
fn a_zeroed_fpcr_is_default_mode() {
    assert!(is_default_mode_bits(0));
    assert_eq!(FpControl::from_bits(0), FpControl::reset());
    assert!(FpControl::from_bits(0).is_default_mode());
}

#[test]
fn each_meaningful_fpcr_bit_leaves_default_mode() {
    // Every one of these forces the softfloat backend. A regression that
    // dropped any single bit from the check would silently run host ops under
    // a rounding mode or flush setting they cannot honour.
    let leaves_default = [FPCR_FZ, FPCR_DN, FPCR_AHP, FPCR_FZ16, FPCR_RMODE_LSB, FPCR_RMODE_LSB + 1];

    for bit in leaves_default {
        let fpcr = 1u64 << bit;
        assert!(!is_default_mode_bits(fpcr), "bit {bit} must leave default mode");
        assert!(!FpControl::from_bits(fpcr).is_default_mode(), "bit {bit}");
    }
}

#[test]
fn the_trap_enable_bits_do_not_leave_default_mode() {
    // The machine advertises untrapped FP only, so setting a trap enable
    // changes nothing observable and must not push the FP path onto softfloat.
    for bit in [8u32, 9, 10, 11, 12, 15] {
        assert!(is_default_mode_bits(1 << bit), "trap enable bit {bit}");
    }
}

#[test]
fn rmode_decodes_in_encoding_order() {
    let expected = [(0b00, FpRounding::Nearest), (0b01, FpRounding::Plus), (0b10, FpRounding::Minus), (0b11, FpRounding::Zero)];

    for (rmode, rounding) in expected {
        let fpcr = (rmode as u64) << FPCR_RMODE_LSB;
        assert_eq!(FpControl::from_bits(fpcr).rounding, rounding);
    }
}

#[test]
fn exception_flags_land_on_the_fpsr_bits_the_architecture_names() {
    assert_eq!(FpExceptions::invalid().to_bits(), 0b1);
    assert_eq!(FpExceptions::divide_by_zero().to_bits(), 0b10);
    assert_eq!(FpExceptions::overflow().to_bits(), 0b100);
    assert_eq!(FpExceptions::underflow().to_bits(), 0b1000);
    assert_eq!(FpExceptions::inexact().to_bits(), 0b1_0000);
    assert_eq!(FpExceptions::input_denormal().to_bits(), 0b1000_0000);
}

#[test]
fn accumulating_flags_is_sticky() {
    let after_first = accumulate(0, FpExceptions::inexact());
    let after_second = accumulate(after_first, FpExceptions::overflow());

    assert_eq!(after_second, FpExceptions::inexact().union(FpExceptions::overflow()).to_bits());
    // The second operation raised no inexact flag, but the first one's
    // survives — that is what cumulative means.
    assert_eq!(accumulate(after_second, FpExceptions::none()), after_second);
}

#[test]
fn unrelated_fpsr_bits_survive_accumulation() {
    // QC (bit 27) and the NZCV copy in the top nibble belong to other paths;
    // accumulating must not disturb them.
    let existing = (1 << 27) | (0b1010 << 28);
    assert_eq!(accumulate(existing, FpExceptions::invalid()), existing | 1);
}

#[test]
fn flag_sets_combine_and_test_membership() {
    let both = FpExceptions::invalid().union(FpExceptions::inexact());
    assert!(both.contains(FpExceptions::inexact()));
    assert!(!both.contains(FpExceptions::overflow()));
    assert!(FpExceptions::none().is_empty());
    assert!(!both.is_empty());
}

/// A backend that implements nothing but the provided `copy_sign`, so the
/// default body is tested through the trait rather than on a concrete type.
struct SignOnlyBackend;

impl FpBackend for SignOnlyBackend {
    fn tracks(&self) -> bool {
        false
    }

    fn tracks_exceptions(&self) -> bool {
        self.tracks()
    }
    fn binary(&self, _: FpBinaryOp, _: FpOperands, _: FpControl) -> FpResult {
        unreachable!("not exercised")
    }
    fn unary(&self, _: FpUnaryOp, _: FpValue, _: FpRounding, _: FpControl) -> FpResult {
        unreachable!("not exercised")
    }
    fn fused_multiply_add(&self, _: FpFmaOperands, _: FpControl) -> FpResult {
        unreachable!("not exercised")
    }
    fn compare(&self, _: FpOperands, _: bool) -> (FpComparison, FpExceptions) {
        unreachable!("not exercised")
    }
    fn convert_format(&self, _: FpValue, _: FpFormat, _: FpControl) -> FpResult {
        unreachable!("not exercised")
    }
    fn to_integer(&self, _: FpValue, _: ToIntegerTarget, _: FpControl) -> FpResult {
        unreachable!("not exercised")
    }
    fn from_integer(&self, _: u64, _: FromIntegerSource, _: FpControl) -> FpResult {
        unreachable!("not exercised")
    }
}

#[test]
fn negation_and_absolute_value_touch_only_the_sign_bit() {
    let backend = SignOnlyBackend;
    let negative = FpValue::new((-2.5f64).to_bits(), FpFormat::Double);
    let positive = FpValue::new(2.5f64.to_bits(), FpFormat::Double);

    assert_eq!(backend.copy_sign(negative, FpSignOp::Negate), positive.bits);
    assert_eq!(backend.copy_sign(negative, FpSignOp::Absolute), positive.bits);
    assert_eq!(backend.copy_sign(positive, FpSignOp::Absolute), positive.bits, "absolute value of a positive is a no-op");
}

#[test]
fn the_sign_operations_leave_a_signalling_nan_signalling() {
    // FNEG and FABS are bit manipulations: they must not quieten, and they
    // must not raise.
    let backend = SignOnlyBackend;
    let signalling = FpValue::new(0x7f80_0001, FpFormat::Single);

    assert_eq!(backend.copy_sign(signalling, FpSignOp::Negate), 0xff80_0001);
    assert_eq!(backend.copy_sign(signalling, FpSignOp::Absolute), 0x7f80_0001);
}

#[test]
fn an_fp_value_is_masked_to_its_format() {
    // A single-precision operand read out of a 128-bit register arrives with
    // the upper bits still set; the format decides what is in range.
    let value = FpValue::new(0xdead_beef_7f80_0001, FpFormat::Single);
    assert_eq!(value.bits, 0x7f80_0001);
    let operands = FpOperands::new(0x1_0000_0001, 2, FpFormat::Half, FpRounding::Zero);
    assert_eq!(operands.lhs_value().bits, 1);
    assert_eq!(operands.rhs_value().bits, 2);
}
