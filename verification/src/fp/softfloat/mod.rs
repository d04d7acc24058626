//! The reference floating-point implementation.
//!
//! Bit-exact and independent of the host's FP unit: every operation is integer
//! arithmetic over unpacked significands. This is the backend for non-default
//! FPCR and for the precise mode every differential FP run requires.
use vstd::prelude::*;
use super::backend::{
    lemma_masked_fits, FpBackend, FpBinaryOp, FpFmaOperands, FpOperands, FpUnaryOp, FpValue, FromIntegerSource,
    ToIntegerTarget,
};
use super::control::{FpControl, FpExceptions};
use super::operand::{FpComparison, FpFormat, FpResult, FpRounding};
use self::arithmetic::{added, divided, multiplied, rooted, Context};
use self::compare::{comparison, extremum_result, Extremum};
use self::convert::{fixed_converted, fixed_to_fp, format_converted, integer_converted, integer_to_fp, integral_rounded};
use self::fused::{fused_result, FusedOperands};
use self::nan::{has_nan, has_signalling, invalid_if};

pub mod arithmetic;
pub mod compare;
pub mod convert;
pub mod decompose;
pub mod fused;
pub mod nan;

verus! {

/// The bit-exact reference backend.
#[derive(Debug, Clone, Copy, Default, PartialEq, Eq)]
pub struct Softfloat;

impl Softfloat {
    /// A new backend. It holds nothing: FPCR arrives with each call.
    pub fn new() -> (r: Softfloat)
        ensures
            r == Softfloat,
    {
        Softfloat
    }
}

/// The arithmetic context of an operation in `format`.
pub open spec fn context_for(format: FpFormat, rounding: FpRounding, control: FpControl) -> Context {
    Context { format, rounding, control }
}

/// What [`Softfloat`] computes for a two-operand operation: the operation on
/// the operands masked to their format's width.
pub open spec fn binary_result(op: FpBinaryOp, operands: FpOperands, control: FpControl) -> FpResult {
    let lhs = operands.lhs_value().bits;
    let rhs = operands.rhs_value().bits;
    let format = operands.format;
    let context = context_for(format, operands.rounding, control);
    match op {
        FpBinaryOp::Add => added(lhs, rhs, false, context),
        FpBinaryOp::Sub => added(lhs, rhs, true, context),
        FpBinaryOp::Mul => multiplied(lhs, rhs, context),
        FpBinaryOp::Div => divided(lhs, rhs, context),
        FpBinaryOp::Max => extremum_result(lhs, rhs, Extremum::Max, format, control),
        FpBinaryOp::Min => extremum_result(lhs, rhs, Extremum::Min, format, control),
        FpBinaryOp::MaxNum => extremum_result(lhs, rhs, Extremum::MaxNum, format, control),
        FpBinaryOp::MinNum => extremum_result(lhs, rhs, Extremum::MinNum, format, control),
    }
}

/// What [`Softfloat`] computes for a one-operand operation.
pub open spec fn unary_result(op: FpUnaryOp, operand: FpValue, rounding: FpRounding, control: FpControl) -> FpResult {
    match op {
        FpUnaryOp::Sqrt => rooted(operand.bits, context_for(operand.format, rounding, control)),
        FpUnaryOp::RoundToIntegral => integral_rounded(operand.bits, operand.format, rounding, control),
    }
}

/// The fused operands of an `FpFmaOperands`, without its format and rounding.
pub open spec fn fused_operands(operands: FpFmaOperands) -> FusedOperands {
    FusedOperands {
        multiplicand: operands.multiplicand,
        multiplier: operands.multiplier,
        addend: operands.addend,
        is_product_negated: operands.is_product_negated,
        is_addend_negated: operands.is_addend_negated,
    }
}

/// What [`Softfloat`] computes for an FP-to-integer conversion: the integer
/// conversion, or the fixed-point one when the target names fractional bits.
pub open spec fn to_integer_result(value: FpValue, target: ToIntegerTarget) -> FpResult {
    if target.fractional_bits == 0 {
        integer_converted(value.bits, value.format, target.format, target.rounding)
    } else {
        fixed_converted(value.bits, value.format, target.format, target.rounding, target.fractional_bits)
    }
}

/// What [`Softfloat`] computes for an integer-to-FP conversion.
pub open spec fn from_integer_result(value: u64, source: FromIntegerSource, control: FpControl) -> FpResult {
    if source.fractional_bits == 0 {
        integer_to_fp(value, source.format, source.target, source.rounding, control)
    } else {
        fixed_to_fp(value, source.format, source.target, source.rounding, control, source.fractional_bits)
    }
}

impl FpBackend for Softfloat {
    /// The reference backend keeps every flag.
    open spec fn tracks(&self) -> bool {
        true
    }

    fn tracks_exceptions(&self) -> (r: bool)
        ensures
            r,
    {
        true
    }

    fn binary(&self, op: FpBinaryOp, operands: FpOperands, control: FpControl) -> (r: FpResult)
        ensures
            r == binary_result(op, operands, control),
    {
        let format = operands.format;
        let lhs = operands.lhs_value().bits;
        let rhs = operands.rhs_value().bits;
        proof {
            lemma_masked_fits(operands.lhs, format.mask());
            lemma_masked_fits(operands.rhs, format.mask());
            compare::lemma_fields(format, rhs);
            if format.exponent_field(rhs) == 0 && format.fraction_field(rhs) == 0 {
                assert(format.exponent_field(rhs) * (format.mantissa_mask() + 1) == 0) by (nonlinear_arith)
                    requires format.exponent_field(rhs) == 0;
                assert(rhs == 0 || rhs == format.sign_weight());
            }
        }
        let context = Context { format, rounding: operands.rounding, control };
        match op {
            FpBinaryOp::Add => arithmetic::add(lhs, rhs, false, context),
            FpBinaryOp::Sub => arithmetic::add(lhs, rhs, true, context),
            FpBinaryOp::Mul => arithmetic::multiply(lhs, rhs, context),
            FpBinaryOp::Div => arithmetic::divide(lhs, rhs, context),
            FpBinaryOp::Max => compare::extremum(lhs, rhs, Extremum::Max, format, control),
            FpBinaryOp::Min => compare::extremum(lhs, rhs, Extremum::Min, format, control),
            FpBinaryOp::MaxNum => compare::extremum(lhs, rhs, Extremum::MaxNum, format, control),
            FpBinaryOp::MinNum => compare::extremum(lhs, rhs, Extremum::MinNum, format, control),
        }
    }

    fn unary(&self, op: FpUnaryOp, operand: FpValue, rounding: FpRounding, control: FpControl) -> (r: FpResult)
        ensures
            r == unary_result(op, operand, rounding, control),
    {
        match op {
            FpUnaryOp::Sqrt => arithmetic::square_root(
                operand.bits,
                Context { format: operand.format, rounding, control },
            ),
            FpUnaryOp::RoundToIntegral => convert::round_to_integral(operand.bits, operand.format, rounding, control),
        }
    }

    fn fused_multiply_add(&self, operands: FpFmaOperands, control: FpControl) -> (r: FpResult)
        ensures
            r == fused_result(
                fused_operands(operands),
                context_for(operands.format, operands.rounding, control),
            ),
    {
        fused::multiply_add(
            FusedOperands {
                multiplicand: operands.multiplicand,
                multiplier: operands.multiplier,
                addend: operands.addend,
                is_product_negated: operands.is_product_negated,
                is_addend_negated: operands.is_addend_negated,
            },
            Context { format: operands.format, rounding: operands.rounding, control },
        )
    }

    fn compare(&self, operands: FpOperands, is_signalling: bool) -> (r: (FpComparison, FpExceptions))
        ensures
            r.0 == comparison(operands.lhs, operands.rhs, operands.format),
            r.1 == invalid_if(has_nan(seq![operands.lhs, operands.rhs], operands.format) && (is_signalling
                || has_signalling(seq![operands.lhs, operands.rhs], operands.format))),
    {
        compare::compare(operands.lhs, operands.rhs, operands.format, is_signalling)
    }

    fn convert_format(&self, value: FpValue, target: FpFormat, control: FpControl) -> (r: FpResult)
        ensures
            r == format_converted(value.bits, value.format, target, control, control.rounding),
    {
        convert::convert_format(value.bits, value.format, target, control, control.rounding)
    }

    fn to_integer(&self, value: FpValue, target: ToIntegerTarget, control: FpControl) -> (r: FpResult)
        ensures
            r == to_integer_result(value, target),
    {
        if target.fractional_bits == 0 {
            convert::to_integer(value.bits, value.format, target.format, target.rounding)
        } else {
            convert::to_fixed_point(value.bits, value.format, target.format, target.rounding, target.fractional_bits)
        }
    }

    fn from_integer(&self, value: u64, source: FromIntegerSource, control: FpControl) -> (r: FpResult)
        ensures
            r == from_integer_result(value, source, control),
    {
        if source.fractional_bits == 0 {
            convert::from_integer(value, source.format, source.target, source.rounding, control)
        } else {
            convert::from_fixed_point(value, source.format, source.target, source.rounding, control, source.fractional_bits)
        }
    }
}

} // verus!
