use lib::fp::control::{FpControl, FpExceptions};
use lib::fp::operand::{FpComparison, FpFormat};
use lib::fp::softfloat::compare::{compare, extremum, Extremum};
use lib::fp::softfloat::nan::{any_nan, invalid_operation, propagate, signalling_among};

const SINGLE: FpFormat = FpFormat::Single;
const QUIET_A: u64 = 0x7fc0_0001;
const QUIET_B: u64 = 0x7fc0_0002;
const SIGNALLING_SINGLE: u64 = 0x7f80_0003;
const ONE: u64 = 0x3f80_0000;

#[test]
fn no_nan_operand_yields_no_nan_result() {
    assert!(propagate(&[ONE, ONE], SINGLE, FpControl::reset()).is_none());
}

#[test]
fn the_first_nan_in_operand_order_wins() {
    // Distinct payloads, so an implementation returning "some NaN" rather than
    // "the first one" fails here.
    let result = propagate(&[QUIET_A, QUIET_B], SINGLE, FpControl::reset()).unwrap();
    assert_eq!(result.bits, QUIET_A);

    let reversed = propagate(&[QUIET_B, QUIET_A], SINGLE, FpControl::reset()).unwrap();
    assert_eq!(reversed.bits, QUIET_B);
}

#[test]
fn a_non_nan_first_operand_does_not_shadow_a_later_nan() {
    let result = propagate(&[ONE, QUIET_B], SINGLE, FpControl::reset()).unwrap();
    assert_eq!(result.bits, QUIET_B);
}

#[test]
fn a_signalling_nan_is_quietened_with_its_payload_intact_and_raises_invalid() {
    let result = propagate(&[SIGNALLING_SINGLE, ONE], SINGLE, FpControl::reset()).unwrap();

    assert_eq!(result.bits, 0x7fc0_0003, "payload survives quietening");
    assert!(result.raised.contains(FpExceptions::invalid()));
}

#[test]
fn a_signalling_nan_raises_invalid_even_when_a_quiet_nan_is_returned() {
    // Operand order returns the quiet NaN, but the signalling one still
    // raised. Collapsing these two questions into one is the classic bug.
    let result = propagate(&[QUIET_A, SIGNALLING_SINGLE], SINGLE, FpControl::reset()).unwrap();

    assert_eq!(result.bits, QUIET_A);
    assert!(result.raised.contains(FpExceptions::invalid()));
}

#[test]
fn a_quiet_nan_alone_raises_nothing() {
    let result = propagate(&[QUIET_A, ONE], SINGLE, FpControl::reset()).unwrap();
    assert!(result.raised.is_empty());
}

#[test]
fn default_nan_mode_replaces_the_payload_but_keeps_the_exception() {
    let control = FpControl { is_default_nan: true, ..FpControl::reset() };

    let quiet = propagate(&[QUIET_A, ONE], SINGLE, control).unwrap();
    assert_eq!(quiet.bits, SINGLE.default_nan());
    assert!(quiet.raised.is_empty());

    let signalling = propagate(&[SIGNALLING_SINGLE, ONE], SINGLE, control).unwrap();
    assert_eq!(signalling.bits, SINGLE.default_nan());
    assert!(signalling.raised.contains(FpExceptions::invalid()));
}

#[test]
fn an_invalid_operation_without_nan_operands_produces_the_default_nan() {
    let result = invalid_operation(SINGLE);
    assert_eq!(result.bits, 0x7fc0_0000);
    assert!(result.raised.contains(FpExceptions::invalid()));
}

#[test]
fn nan_predicates_scan_every_operand() {
    assert!(signalling_among(&[ONE, ONE, SIGNALLING_SINGLE], SINGLE));
    assert!(!signalling_among(&[ONE, QUIET_A], SINGLE));
    assert!(any_nan(&[ONE, QUIET_A], SINGLE));
    assert!(!any_nan(&[ONE, ONE], SINGLE));
}

const DOUBLE: FpFormat = FpFormat::Double;
const QUIET: u64 = 0x7ff8_0000_0000_0001;
const SIGNALLING: u64 = 0x7ff0_0000_0000_0001;

fn compare_double(lhs: f64, rhs: f64) -> FpComparison {
    compare(lhs.to_bits(), rhs.to_bits(), DOUBLE, false).0
}

#[test]
fn ordering_matches_the_hosts_own_partial_order() {
    let values = [f64::NEG_INFINITY, -1e300, -1.0, -f64::MIN_POSITIVE, -0.0, 0.0, f64::MIN_POSITIVE, 1.0, 1e300, f64::INFINITY];

    for &lhs in &values {
        for &rhs in &values {
            let expected = if lhs < rhs {
                FpComparison::Less
            } else if lhs > rhs {
                FpComparison::Greater
            } else {
                FpComparison::Equal
            };
            assert_eq!(compare_double(lhs, rhs), expected, "{lhs} vs {rhs}");
        }
    }
}

#[test]
fn the_two_zeroes_compare_equal_despite_differing_bits() {
    assert_eq!(compare_double(0.0, -0.0), FpComparison::Equal);
    assert_eq!(compare_double(-0.0, 0.0), FpComparison::Equal);
    // And the bits really are different, so this is not a trivial pass.
    assert_ne!(0.0f64.to_bits(), (-0.0f64).to_bits());
}

#[test]
fn any_nan_operand_makes_the_result_unordered() {
    for (lhs, rhs) in [(QUIET, 1.0f64.to_bits()), (1.0f64.to_bits(), QUIET), (QUIET, QUIET)] {
        assert_eq!(compare(lhs, rhs, DOUBLE, false).0, FpComparison::Unordered);
    }
}

#[test]
fn a_quiet_nan_raises_invalid_only_for_the_signalling_compare() {
    let one = 1.0f64.to_bits();

    let quiet_fcmp = compare(QUIET, one, DOUBLE, false).1;
    assert!(!quiet_fcmp.contains(FpExceptions::invalid()), "FCMP is quiet");

    let quiet_fcmpe = compare(QUIET, one, DOUBLE, true).1;
    assert!(quiet_fcmpe.contains(FpExceptions::invalid()), "FCMPE raises");

    // A signalling NaN raises for both.
    assert!(compare(SIGNALLING, one, DOUBLE, false).1.contains(FpExceptions::invalid()));
    assert!(compare(SIGNALLING, one, DOUBLE, true).1.contains(FpExceptions::invalid()));
}

#[test]
fn unordered_maps_to_the_nzcv_the_architecture_names() {
    assert_eq!(FpComparison::Unordered.to_nzcv(), 0b0011);
    assert_eq!(compare_double(f64::NAN, 1.0).to_nzcv(), 0b0011);
}

fn extremum_double(lhs: f64, rhs: f64, which: Extremum) -> f64 {
    f64::from_bits(extremum(lhs.to_bits(), rhs.to_bits(), which, DOUBLE, FpControl::reset()).bits)
}

#[test]
fn maximum_and_minimum_pick_the_expected_operand() {
    let cases = [(1.0, 2.0), (-1.0, 1.0), (-5.0, -2.0), (1e300, 1e-300)];

    for (lhs, rhs) in cases {
        assert_eq!(extremum_double(lhs, rhs, Extremum::Max), lhs.max(rhs));
        assert_eq!(extremum_double(lhs, rhs, Extremum::Min), lhs.min(rhs));
        // Order of operands must not matter for finite values.
        assert_eq!(extremum_double(rhs, lhs, Extremum::Max), lhs.max(rhs));
        assert_eq!(extremum_double(rhs, lhs, Extremum::Min), lhs.min(rhs));
    }
}

#[test]
fn the_extrema_distinguish_the_two_zeroes() {
    // max(+0, -0) is +0 and min(+0, -0) is -0, in either operand order.
    assert_eq!(extremum_double(0.0, -0.0, Extremum::Max).to_bits(), 0.0f64.to_bits());
    assert_eq!(extremum_double(-0.0, 0.0, Extremum::Max).to_bits(), 0.0f64.to_bits());
    assert_eq!(extremum_double(0.0, -0.0, Extremum::Min).to_bits(), (-0.0f64).to_bits());
    assert_eq!(extremum_double(-0.0, 0.0, Extremum::Min).to_bits(), (-0.0f64).to_bits());
}

#[test]
fn fmax_propagates_a_nan_but_fmaxnm_ignores_a_lone_quiet_one() {
    let one = 1.0f64.to_bits();
    let control = FpControl::reset();

    // FMAX propagates.
    assert_eq!(extremum(QUIET, one, Extremum::Max, DOUBLE, control).bits, QUIET);
    assert_eq!(extremum(QUIET, one, Extremum::Min, DOUBLE, control).bits, QUIET);

    // FMAXNM returns the number, whichever side the NaN is on.
    assert_eq!(extremum(QUIET, one, Extremum::MaxNum, DOUBLE, control).bits, one);
    assert_eq!(extremum(one, QUIET, Extremum::MaxNum, DOUBLE, control).bits, one);
    assert_eq!(extremum(QUIET, one, Extremum::MinNum, DOUBLE, control).bits, one);
}

#[test]
fn fmaxnm_still_propagates_a_signalling_nan_and_raises() {
    let one = 1.0f64.to_bits();
    let result = extremum(SIGNALLING, one, Extremum::MaxNum, DOUBLE, FpControl::reset());

    assert_eq!(result.bits, 0x7ff8_0000_0000_0001, "quietened, not ignored");
    assert!(result.raised.contains(FpExceptions::invalid()));
}

#[test]
fn fmaxnm_with_two_quiet_nans_propagates_the_first() {
    let second = 0x7ff8_0000_0000_0002;
    let result = extremum(QUIET, second, Extremum::MaxNum, DOUBLE, FpControl::reset());

    assert_eq!(result.bits, QUIET);
}

#[test]
fn single_precision_comparison_follows_the_value_order() {
    let values = [f32::NEG_INFINITY, -3.5f32, -1e-40, -0.0, 0.0, 1e-40, 2.0, f32::MAX, f32::INFINITY];
    for &lhs in &values {
        for &rhs in &values {
            let expected = if lhs < rhs {
                FpComparison::Less
            } else if lhs > rhs {
                FpComparison::Greater
            } else {
                FpComparison::Equal
            };
            assert_eq!(compare(lhs.to_bits() as u64, rhs.to_bits() as u64, SINGLE, false).0, expected);
        }
    }
}
