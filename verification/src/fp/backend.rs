//! The one trait both FP backends implement.
//!
//! Two backends exist: native wasm ops while FPCR is in default mode,
//! softfloat otherwise and in precise mode. [`FpBackend`] is the seam between
//! them.
//!
//! Every method takes the operand format and the rounding mode explicitly and
//! returns an [`FpResult`]. Nothing in the signature says which backend is
//! answering, which is what keeps the choice out of the call sites.
use vstd::prelude::*;
use super::control::{FpControl, FpExceptions};
use super::operand::{FpComparison, FpFormat, FpResult, FpRounding};

verus! {

/// The two-operand arithmetic an FP encoding can name.
#[derive(Debug, Clone, Copy, PartialEq, Eq, Structural)]
pub enum FpBinaryOp {
    /// `FADD`.
    Add,
    /// `FSUB`.
    Sub,
    /// `FMUL`.
    Mul,
    /// `FDIV`.
    Div,
    /// `FMAX` — propagates NaNs, and prefers the larger operand.
    Max,
    /// `FMIN` — propagates NaNs.
    Min,
    /// `FMAXNM` — returns the non-NaN operand when exactly one is a quiet NaN.
    MaxNum,
    /// `FMINNM` — the same for the minimum.
    MinNum,
}

/// The one-operand arithmetic an FP encoding can name.
#[derive(Debug, Clone, Copy, PartialEq, Eq, Structural)]
pub enum FpUnaryOp {
    /// `FSQRT`.
    Sqrt,
    /// `FRINT<mode>` — round to an integral value in the same format.
    RoundToIntegral,
}

/// Width and signedness of the integer side of a conversion.
#[derive(Debug, Clone, Copy, PartialEq, Eq, Structural)]
pub struct IntFormat {
    /// 32 or 64.
    pub bits: u32,
    /// Whether the integer is two's-complement signed.
    pub is_signed: bool,
}

impl IntFormat {
    /// Signed 32-bit — the `W` forms of `FCVTZS` and `SCVTF`.
    #[verifier::allow_in_spec]
    pub fn s32() -> (r: IntFormat)
        returns
            (IntFormat { bits: 32, is_signed: true }),
    {
        IntFormat { bits: 32, is_signed: true }
    }

    /// Unsigned 32-bit.
    #[verifier::allow_in_spec]
    pub fn u32() -> (r: IntFormat)
        returns
            (IntFormat { bits: 32, is_signed: false }),
    {
        IntFormat { bits: 32, is_signed: false }
    }

    /// Signed 64-bit.
    #[verifier::allow_in_spec]
    pub fn s64() -> (r: IntFormat)
        returns
            (IntFormat { bits: 64, is_signed: true }),
    {
        IntFormat { bits: 64, is_signed: true }
    }

    /// Unsigned 64-bit.
    #[verifier::allow_in_spec]
    pub fn u64() -> (r: IntFormat)
        returns
            (IntFormat { bits: 64, is_signed: false }),
    {
        IntFormat { bits: 64, is_signed: false }
    }
}

/// Which sign operation to apply.
#[derive(Debug, Clone, Copy, PartialEq, Eq, Structural)]
pub enum FpSignOp {
    /// `FNEG` — flip the sign bit.
    Negate,
    /// `FABS` — clear the sign bit.
    Absolute,
}

/// What a sign operation leaves of `bits`: `FNEG` flips the sign bit, `FABS`
/// clears it, and every other bit — a NaN's quiet bit included — stays.
pub open spec fn sign_applied(bits: u64, format: FpFormat, op: FpSignOp) -> u64 {
    match op {
        FpSignOp::Negate => bits ^ format.sign_weight(),
        FpSignOp::Absolute => bits & !format.sign_weight(),
    }
}

/// One floating-point implementation.
///
/// Implementors are stateless: FPCR arrives as an argument rather than being
/// held, so a single backend instance serves every guest and the interpreter
/// can swap engines without carrying state across.
pub trait FpBackend {
    /// Whether this backend maintains FPSR cumulative exception flags: what
    /// [`FpBackend::tracks_exceptions`] answers.
    spec fn tracks(&self) -> bool;

    /// Whether this backend maintains FPSR cumulative exception flags.
    fn tracks_exceptions(&self) -> (r: bool)
        ensures
            r == self.tracks(),
    ;

    /// Two-operand arithmetic.
    fn binary(&self, op: FpBinaryOp, operands: FpOperands, control: FpControl) -> FpResult;

    /// One-operand arithmetic.
    fn unary(&self, op: FpUnaryOp, operand: FpValue, rounding: FpRounding, control: FpControl) -> FpResult;

    /// Fused multiply-add: `addend + product`, rounded once.
    fn fused_multiply_add(&self, operands: FpFmaOperands, control: FpControl) -> FpResult;

    /// Negation, absolute value and the sign-manipulating moves.
    ///
    /// These are bit operations in the architecture — they do not raise
    /// exceptions even for signalling NaNs — so they have no rounding mode and
    /// every backend answers identically.
    fn copy_sign(&self, value: FpValue, op: FpSignOp) -> (r: u64)
        ensures
            r == sign_applied(value.bits, value.format, op),
    {
        let sign = value.format.zero(true);
        match op {
            FpSignOp::Negate => value.bits ^ sign,
            FpSignOp::Absolute => value.bits & !sign,
        }
    }

    /// Ordered comparison. `FCMP` and `FCMPE` differ only in `is_signalling`.
    fn compare(&self, operands: FpOperands, is_signalling: bool) -> (FpComparison, FpExceptions);

    /// Conversion between two FP formats — `FCVT`.
    fn convert_format(&self, value: FpValue, target: FpFormat, control: FpControl) -> FpResult;

    /// FP to integer, in an explicit rounding mode.
    ///
    /// `fractional_bits` is non-zero for the fixed-point forms, which scale by
    /// `2^fbits` before rounding.
    fn to_integer(&self, value: FpValue, target: ToIntegerTarget, control: FpControl) -> FpResult
        requires
            1 <= target.format.bits <= 64,
    ;

    /// Integer to FP.
    ///
    /// `fractional_bits` is non-zero for the fixed-point forms, which divide by
    /// `2^fbits` after converting.
    fn from_integer(&self, value: u64, source: FromIntegerSource, control: FpControl) -> FpResult
        requires
            1 <= source.format.bits <= 64,
    ;
}

/// A value together with the format its bits are in.
#[derive(Debug, Clone, Copy, PartialEq, Eq, Structural)]
pub struct FpValue {
    /// Raw bits, in `format`.
    pub bits: u64,
    /// How to read them.
    pub format: FpFormat,
}

/// Masking to a format's width leaves a value within it.
pub proof fn lemma_masked_fits(bits: u64, mask: u64)
    ensures
        bits & mask <= mask,
{
    assert(bits & mask <= mask) by (bit_vector);
}

impl FpValue {
    /// Pairs bits with their format, dropping the bits above its width.
    #[verifier::allow_in_spec]
    pub fn new(bits: u64, format: FpFormat) -> (r: FpValue)
        returns
            (FpValue { bits: bits & format.mask(), format }),
    {
        FpValue { bits: bits & format.mask(), format }
    }
}

/// Both operands of a two-operand instruction, which always share a format.
#[derive(Debug, Clone, Copy, PartialEq, Eq, Structural)]
pub struct FpOperands {
    /// First operand.
    pub lhs: u64,
    /// Second operand.
    pub rhs: u64,
    /// The format both are in.
    pub format: FpFormat,
    /// Rounding to apply to the result.
    pub rounding: FpRounding,
}

impl FpOperands {
    /// Two operands in `format`, rounded per `rounding`.
    #[verifier::allow_in_spec]
    pub fn new(lhs: u64, rhs: u64, format: FpFormat, rounding: FpRounding) -> (r: FpOperands)
        returns
            (FpOperands { lhs, rhs, format, rounding }),
    {
        FpOperands { lhs, rhs, format, rounding }
    }

    /// The first operand as a [`FpValue`].
    #[verifier::allow_in_spec]
    pub fn lhs_value(self) -> (r: FpValue)
        returns
            FpValue::new(self.lhs, self.format),
    {
        FpValue::new(self.lhs, self.format)
    }

    /// The second operand as a [`FpValue`].
    #[verifier::allow_in_spec]
    pub fn rhs_value(self) -> (r: FpValue)
        returns
            FpValue::new(self.rhs, self.format),
    {
        FpValue::new(self.rhs, self.format)
    }
}

/// The three operands of a fused multiply-add, plus the sign controls that
/// distinguish `FMADD`, `FMSUB`, `FNMADD` and `FNMSUB`.
#[derive(Debug, Clone, Copy, PartialEq, Eq, Structural)]
pub struct FpFmaOperands {
    /// First multiplicand.
    pub multiplicand: u64,
    /// Second multiplicand.
    pub multiplier: u64,
    /// Addend.
    pub addend: u64,
    /// The format all three are in.
    pub format: FpFormat,
    /// Rounding applied to the single rounding step.
    pub rounding: FpRounding,
    /// Whether the product is negated before the addition.
    pub is_product_negated: bool,
    /// Whether the addend is negated before the addition.
    pub is_addend_negated: bool,
}

/// Where an FP-to-integer conversion is going.
#[derive(Debug, Clone, Copy, PartialEq, Eq, Structural)]
pub struct ToIntegerTarget {
    /// Width and signedness of the result.
    pub format: IntFormat,
    /// Rounding applied before truncation.
    pub rounding: FpRounding,
    /// Fixed-point fractional bits; zero for the integer forms.
    pub fractional_bits: u8,
}

/// Where an integer-to-FP conversion is coming from.
#[derive(Debug, Clone, Copy, PartialEq, Eq, Structural)]
pub struct FromIntegerSource {
    /// Width and signedness of the input.
    pub format: IntFormat,
    /// Format of the result.
    pub target: FpFormat,
    /// Rounding applied to the result.
    pub rounding: FpRounding,
    /// Fixed-point fractional bits; zero for the integer forms.
    pub fractional_bits: u8,
}

} // verus!
