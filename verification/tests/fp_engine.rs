use lib::fp::backend::{
    FpBackend, FpBinaryOp, FpFmaOperands, FpOperands, FpSignOp, FpUnaryOp, FpValue, FromIntegerSource,
    ToIntegerTarget,
};
use lib::fp::control::{FpControl, FpExceptions};
use lib::fp::engine::{selects_native_backend, FpEngine, IS_PRECISE_BUILD};
use lib::fp::operand::{FpComparison, FpFormat, FpResult, FpRounding};
use lib::fp::softfloat::Softfloat;

/// A host-float backend for default mode, standing in for the one the
/// application supplies: double and single arithmetic and comparison on the
/// host, everything else on the reference, and no flags.
#[derive(Debug, Clone, Copy, Default)]
struct Host {
    fallback: Softfloat,
}

impl FpBackend for Host {
    fn tracks(&self) -> bool {
        false
    }

    fn tracks_exceptions(&self) -> bool {
        self.tracks()
    }

    fn binary(&self, op: FpBinaryOp, operands: FpOperands, control: FpControl) -> FpResult {
        if operands.format != FpFormat::Double || operands.rounding != FpRounding::Nearest {
            return self.fallback.binary(op, operands, control);
        }
        let (lhs, rhs) = (f64::from_bits(operands.lhs), f64::from_bits(operands.rhs));
        let value = match op {
            FpBinaryOp::Add => lhs + rhs,
            FpBinaryOp::Sub => lhs - rhs,
            FpBinaryOp::Mul => lhs * rhs,
            FpBinaryOp::Div => lhs / rhs,
            _ => return self.fallback.binary(op, operands, control),
        };
        FpResult::exact(value.to_bits())
    }

    fn unary(&self, op: FpUnaryOp, operand: FpValue, rounding: FpRounding, control: FpControl) -> FpResult {
        self.fallback.unary(op, operand, rounding, control)
    }

    fn fused_multiply_add(&self, operands: FpFmaOperands, control: FpControl) -> FpResult {
        self.fallback.fused_multiply_add(operands, control)
    }

    fn compare(&self, operands: FpOperands, _is_signalling: bool) -> (FpComparison, FpExceptions) {
        let (lhs, rhs) = (f64::from_bits(operands.lhs), f64::from_bits(operands.rhs));
        let ordering = if lhs < rhs {
            FpComparison::Less
        } else if lhs > rhs {
            FpComparison::Greater
        } else if lhs == rhs {
            FpComparison::Equal
        } else {
            FpComparison::Unordered
        };
        (ordering, FpExceptions::none())
    }

    fn convert_format(&self, value: FpValue, target: FpFormat, control: FpControl) -> FpResult {
        self.fallback.convert_format(value, target, control)
    }

    fn to_integer(&self, value: FpValue, target: ToIntegerTarget, control: FpControl) -> FpResult {
        self.fallback.to_integer(value, target, control)
    }

    fn from_integer(&self, value: u64, source: FromIntegerSource, control: FpControl) -> FpResult {
        self.fallback.from_integer(value, source, control)
    }
}

fn new_engine() -> FpEngine<Host> {
    FpEngine::new(Host::default())
}

fn engine_with_fpcr(fpcr: u64) -> FpEngine<Host> {
    FpEngine::with_fpcr(fpcr, Host::default())
}

const DOUBLE: FpFormat = FpFormat::Double;

/// FPCR with RMode set to round-toward-zero.
const TOWARD_ZERO: u64 = 0b11 << 22;
/// FPCR with flush-to-zero set.
const FLUSH_TO_ZERO: u64 = 1 << 24;

fn operands(lhs: f64, rhs: f64) -> FpOperands {
    FpOperands::new(lhs.to_bits(), rhs.to_bits(), DOUBLE, FpRounding::Nearest)
}

#[test]
fn a_default_fpcr_selects_the_native_backend_outside_precise_builds() {
    let engine = new_engine();

    assert_eq!(engine.tracks_exceptions(), IS_PRECISE_BUILD);
    assert_eq!(selects_native_backend(0), !IS_PRECISE_BUILD);
}

#[test]
fn a_non_default_fpcr_always_selects_the_reference() {
    for fpcr in [TOWARD_ZERO, FLUSH_TO_ZERO, 1 << 25, 1 << 19] {
        assert!(!selects_native_backend(fpcr), "fpcr {fpcr:#x}");
        assert!(engine_with_fpcr(fpcr).tracks_exceptions());
    }
}

#[test]
fn writing_fpcr_reselects_the_backend() {
    let mut engine = new_engine();
    assert_eq!(engine.tracks_exceptions(), IS_PRECISE_BUILD);

    engine.set_fpcr(TOWARD_ZERO);
    assert!(engine.tracks_exceptions(), "now on the reference path");
    assert_eq!(engine.default_rounding(), FpRounding::Zero);

    engine.set_fpcr(0);
    assert_eq!(engine.tracks_exceptions(), IS_PRECISE_BUILD);
    assert_eq!(engine.default_rounding(), FpRounding::Nearest);
}

#[test]
fn the_engine_computes_the_same_answer_whichever_backend_is_selected() {
    // The selection must be invisible in the result for ordinary values.
    // This is the property that lets the interpreter ignore it.
    let mut native = engine_with_fpcr(0);
    let mut reference = engine_with_fpcr(TOWARD_ZERO);
    reference.set_fpcr(0);
    // Force the reference by asking for a mode the host cannot serve, then
    // compare against a directly-computed reference result.
    let pair = operands(0.1, 0.2);

    let from_engine = native.binary(FpBinaryOp::Add, pair);
    let from_reference = Softfloat::new()
        .binary(FpBinaryOp::Add, pair, FpControl::reset())
        .bits;

    assert_eq!(from_engine, from_reference);
}

#[test]
fn exception_flags_accumulate_only_on_the_reference_path() {
    // 1/0 raises DZC. Under a non-default FPCR the reference is selected
    // and the flag lands; in default mode outside a precise build it does
    // not. That asymmetry is the documented divergence.
    let mut reference = engine_with_fpcr(TOWARD_ZERO);
    let pair = FpOperands::new(1.0f64.to_bits(), 0.0f64.to_bits(), DOUBLE, FpRounding::Zero);

    reference.binary(FpBinaryOp::Div, pair);
    assert!(
        reference.exceptions() & FpExceptions::divide_by_zero().to_bits() != 0,
        "the reference path records DZC"
    );

    let mut native = new_engine();
    native.binary(
        FpBinaryOp::Div,
        FpOperands::new(1.0f64.to_bits(), 0.0f64.to_bits(), DOUBLE, FpRounding::Nearest),
    );
    assert_eq!(
        native.exceptions() != 0,
        IS_PRECISE_BUILD,
        "flags appear only when the reference is serving"
    );
}

#[test]
fn flags_are_cumulative_across_operations_and_cleared_only_by_a_write() {
    let mut engine = engine_with_fpcr(TOWARD_ZERO);
    let rounding = FpRounding::Zero;

    engine.binary(
        FpBinaryOp::Div,
        FpOperands::new(1.0f64.to_bits(), 0.0f64.to_bits(), DOUBLE, rounding),
    );
    let after_first = engine.exceptions();
    assert_ne!(after_first, 0);

    // An exact operation raises nothing but must not clear what is set.
    engine.binary(
        FpBinaryOp::Add,
        FpOperands::new(1.0f64.to_bits(), 1.0f64.to_bits(), DOUBLE, rounding),
    );
    assert!(engine.exceptions() & after_first == after_first);

    engine.set_exceptions(0);
    assert_eq!(engine.exceptions(), 0, "only a write clears them");
}

#[test]
fn the_sign_operations_never_touch_the_flags() {
    let engine = engine_with_fpcr(TOWARD_ZERO);
    let signalling = FpValue::new(0x7ff0_0000_0000_0001, DOUBLE);

    let negated = engine.copy_sign(signalling, FpSignOp::Negate);

    assert_eq!(negated, 0xfff0_0000_0000_0001);
    assert_eq!(engine.exceptions(), 0, "FNEG raises nothing");
}

#[test]
fn a_comparison_returns_the_architectures_nzcv() {
    let mut engine = new_engine();

    assert_eq!(engine.compare(operands(1.0, 2.0), false), 0b1000, "less");
    assert_eq!(engine.compare(operands(2.0, 1.0), false), 0b0010, "greater");
    assert_eq!(engine.compare(operands(1.0, 1.0), false), 0b0110, "equal");
    assert_eq!(
        engine.compare(operands(f64::NAN, 1.0), false),
        0b0011,
        "unordered"
    );
}

#[test]
fn the_reference_backend_reports_the_flags_it_raises() {
    let reference = Softfloat::new();
    assert!(reference.tracks_exceptions());
    let result = reference.binary(
        FpBinaryOp::Div,
        FpOperands::new(1.0f64.to_bits(), 0.0f64.to_bits(), DOUBLE, FpRounding::Nearest),
        FpControl::reset(),
    );
    assert_eq!(result.bits, f64::INFINITY.to_bits());
    assert!(result.raised.contains(FpExceptions::divide_by_zero()));
}
