//! FPCR and FPSR, interpreted.
//!
//! [`crate::regfile::RegFile`] stores both as raw `u64`, because the trace
//! stream carries them verbatim. The fields the FP path actually reads are
//! named here so the backend-selection rule is stated once rather than
//! rediscovered per instruction.
use vstd::prelude::*;
use super::operand::FpRounding;

verus! {

/// `FPCR.FZ`: flush denormalised single and double results to zero.
pub const FPCR_FZ: u32 = 24;
/// `FPCR.DN`: quiet NaN results carry no propagated payload.
pub const FPCR_DN: u32 = 25;
/// `FPCR.AHP`: alternative half-precision format.
pub const FPCR_AHP: u32 = 26;
/// `FPCR.FZ16`: flush denormalised FP16 inputs and results to zero.
pub const FPCR_FZ16: u32 = 19;
/// Least significant bit of `FPCR.RMode`.
pub const FPCR_RMODE_LSB: u32 = 22;

/// Every FPCR bit this build gives meaning to: `RMode`, `FZ`, `DN`, `AHP` and
/// `FZ16`.
///
/// Anything outside this mask is stored and read back but does not change
/// behaviour, which includes the exception-trap enables: the machine advertises
/// untrapped FP only, so a set trap enable does not make an exception trap.
pub const MEANINGFUL_BITS: u64 = 0x07c8_0000;

/// Whether bit `bit` of `value` is set.
pub open spec fn bit_set(value: u64, bit: u64) -> bool {
    (value >> bit) & 1 == 1
}

/// The interpreted contents of FPCR.
#[derive(Debug, Clone, Copy, PartialEq, Eq, Structural, Default)]
pub struct FpControl {
    /// Rounding mode selected by `FPCR.RMode`.
    pub rounding: FpRounding,
    /// `FPCR.FZ` — flush denormalised single and double results to zero.
    pub is_flush_to_zero: bool,
    /// `FPCR.FZ16` — the same for half precision.
    pub is_flush_to_zero_fp16: bool,
    /// `FPCR.DN` — every NaN result is the default NaN.
    pub is_default_nan: bool,
    /// `FPCR.AHP` — alternative half-precision format, which has no infinities.
    pub is_alternative_fp16: bool,
}

/// What [`FpControl::from_bits`] reads out of a raw FPCR value.
pub open spec fn control_of(fpcr: u64) -> FpControl {
    FpControl {
        rounding: FpRounding::from_rmode(((fpcr >> 22u64) & 3) as u8),
        is_flush_to_zero: bit_set(fpcr, 24),
        is_flush_to_zero_fp16: bit_set(fpcr, 19),
        is_default_nan: bit_set(fpcr, 25),
        is_alternative_fp16: bit_set(fpcr, 26),
    }
}

impl FpControl {
    /// The reset state: round to nearest, no flushing, IEEE NaN propagation.
    pub fn reset() -> (r: FpControl)
        ensures
            r == control_of(0),
            r.rounding == FpRounding::Nearest,
            !r.is_flush_to_zero && !r.is_flush_to_zero_fp16 && !r.is_default_nan && !r.is_alternative_fp16,
    {
        assert(((0u64 >> 22u64) & 3) == 0 && (0u64 >> 24u64) & 1 == 0 && (0u64 >> 19u64) & 1 == 0
            && (0u64 >> 25u64) & 1 == 0 && (0u64 >> 26u64) & 1 == 0) by (bit_vector);
        FpControl {
            rounding: FpRounding::Nearest,
            is_flush_to_zero: false,
            is_flush_to_zero_fp16: false,
            is_default_nan: false,
            is_alternative_fp16: false,
        }
    }

    /// Interprets a raw FPCR value.
    pub fn from_bits(fpcr: u64) -> (r: FpControl)
        ensures
            r == control_of(fpcr),
    {
        let rmode = ((fpcr >> 22u64) & 3) as u8;
        FpControl {
            rounding: FpRounding::from_rmode(rmode),
            is_flush_to_zero: (fpcr >> 24u64) & 1 == 1,
            is_flush_to_zero_fp16: (fpcr >> 19u64) & 1 == 1,
            is_default_nan: (fpcr >> 25u64) & 1 == 1,
            is_alternative_fp16: (fpcr >> 26u64) & 1 == 1,
        }
    }

    /// Whether this state is the one the native backend is allowed to serve:
    /// round to nearest, no flushing, IEEE NaNs, IEEE half precision.
    ///
    /// Wasm offers no rounding-mode control and no flush-to-zero, so the native
    /// path is correct only in default mode.
    #[verifier::allow_in_spec]
    pub fn is_default_mode(self) -> (r: bool)
        returns
            self.rounding == FpRounding::Nearest && !self.is_flush_to_zero && !self.is_flush_to_zero_fp16
                && !self.is_default_nan && !self.is_alternative_fp16,
    {
        matches!(self.rounding, FpRounding::Nearest) && !self.is_flush_to_zero && !self.is_flush_to_zero_fp16
            && !self.is_default_nan && !self.is_alternative_fp16
    }
}

/// Whether a raw FPCR value leaves the FP path in default mode: none of the
/// meaningful bits set.
///
/// Cheaper than [`FpControl::from_bits`] followed by
/// [`FpControl::is_default_mode`], and it answers the same question.
pub fn is_default_mode_bits(fpcr: u64) -> (r: bool)
    ensures
        r == (fpcr & MEANINGFUL_BITS == 0),
        r == control_of(fpcr).is_default_mode(),
{
    proof { lemma_default_mode_bits(fpcr); }
    fpcr & MEANINGFUL_BITS == 0
}

/// The meaningful-bits test and the interpreted control agree on what default
/// mode is, for every FPCR value.
pub proof fn lemma_default_mode_bits(fpcr: u64)
    ensures
        (fpcr & MEANINGFUL_BITS == 0) == control_of(fpcr).is_default_mode(),
{
    assert((fpcr & 0x07c8_0000 == 0) == (((fpcr >> 22u64) & 3) == 0 && (fpcr >> 24u64) & 1 != 1
        && (fpcr >> 19u64) & 1 != 1 && (fpcr >> 25u64) & 1 != 1 && (fpcr >> 26u64) & 1 != 1)) by (bit_vector);
    assert(((fpcr >> 22u64) & 3) < 4) by (bit_vector);
}

/// `FPSR.IOC`: invalid operation.
pub const FPSR_IOC: u8 = 1;
/// `FPSR.DZC`: divide by zero.
pub const FPSR_DZC: u8 = 2;
/// `FPSR.OFC`: overflow.
pub const FPSR_OFC: u8 = 4;
/// `FPSR.UFC`: underflow.
pub const FPSR_UFC: u8 = 8;
/// `FPSR.IXC`: inexact.
pub const FPSR_IXC: u8 = 16;
/// `FPSR.IDC`: input denormal.
pub const FPSR_IDC: u8 = 128;

/// Cumulative exception flags raised by one operation, in their FPSR bit
/// positions.
///
/// Accumulated into FPSR by the softfloat backend only — the native backend
/// cannot observe them, which is a known divergence rather than a defect.
#[derive(Debug, Clone, Copy, PartialEq, Eq, Structural, Default)]
pub struct FpExceptions(u8);

impl FpExceptions {
    /// The flag bits.
    pub closed spec fn flags(self) -> u8 {
        self.0
    }

    /// The set holding exactly the flag bits `flags`.
    pub closed spec fn with_flags(flags: u8) -> FpExceptions {
        FpExceptions(flags)
    }

    /// A set is its flag bits, and the flag bits of a built set are what it was
    /// built from.
    pub proof fn lemma_flags(self, flags: u8)
        ensures
            FpExceptions::with_flags(flags).flags() == flags,
            FpExceptions::with_flags(self.flags()) == self,
    {
    }

    /// No exception raised.
    pub fn none() -> (r: FpExceptions)
        ensures
            r == FpExceptions::with_flags(0),
    {
        FpExceptions(0)
    }

    /// Invalid operation — `IOC`.
    pub fn invalid() -> (r: FpExceptions)
        ensures
            r == FpExceptions::with_flags(FPSR_IOC),
    {
        FpExceptions(FPSR_IOC)
    }

    /// Divide by zero — `DZC`.
    pub fn divide_by_zero() -> (r: FpExceptions)
        ensures
            r == FpExceptions::with_flags(FPSR_DZC),
    {
        FpExceptions(FPSR_DZC)
    }

    /// Overflow — `OFC`.
    pub fn overflow() -> (r: FpExceptions)
        ensures
            r == FpExceptions::with_flags(FPSR_OFC),
    {
        FpExceptions(FPSR_OFC)
    }

    /// Underflow — `UFC`.
    pub fn underflow() -> (r: FpExceptions)
        ensures
            r == FpExceptions::with_flags(FPSR_UFC),
    {
        FpExceptions(FPSR_UFC)
    }

    /// Inexact — `IXC`.
    pub fn inexact() -> (r: FpExceptions)
        ensures
            r == FpExceptions::with_flags(FPSR_IXC),
    {
        FpExceptions(FPSR_IXC)
    }

    /// Input denormal — `IDC`.
    pub fn input_denormal() -> (r: FpExceptions)
        ensures
            r == FpExceptions::with_flags(FPSR_IDC),
    {
        FpExceptions(FPSR_IDC)
    }

    /// Whether no flag is set.
    pub fn is_empty(self) -> (r: bool)
        ensures
            r == (self.flags() == 0),
    {
        self.0 == 0
    }

    /// The union of two flag sets.
    pub fn union(self, other: FpExceptions) -> (r: FpExceptions)
        ensures
            r == FpExceptions::with_flags(self.flags() | other.flags()),
    {
        FpExceptions(self.0 | other.0)
    }

    /// Whether every flag in `other` is present here.
    pub fn contains(self, other: FpExceptions) -> (r: bool)
        ensures
            r == (self.flags() & other.flags() == other.flags()),
    {
        self.0 & other.0 == other.0
    }

    /// The FPSR bits these flags occupy.
    pub fn to_bits(self) -> (r: u64)
        ensures
            r == self.flags() as u64,
    {
        self.0 as u64
    }
}

/// Accumulates `raised` into a raw FPSR value.
///
/// The flags are cumulative and sticky: an operation never clears one another
/// operation set. Only a write to FPSR does.
pub fn accumulate(fpsr: u64, raised: FpExceptions) -> (r: u64)
    ensures
        r == fpsr | raised.flags() as u64,
{
    fpsr | raised.to_bits()
}

/// Accumulation is sticky: every bit set before is still set, every raised
/// flag is set, accumulating twice is accumulating once, and accumulating no
/// flags changes nothing.
pub proof fn lemma_accumulate_is_sticky(fpsr: u64, raised: u8)
    ensures
        (fpsr | raised as u64) & fpsr == fpsr,
        (fpsr | raised as u64) & (raised as u64) == raised as u64,
        ((fpsr | raised as u64) | raised as u64) == (fpsr | raised as u64),
        (fpsr | 0u64) == fpsr,
{
    let r = raised as u64;
    assert((fpsr | r) & fpsr == fpsr && (fpsr | r) & r == r && ((fpsr | r) | r) == (fpsr | r)
        && (fpsr | 0u64) == fpsr) by (bit_vector);
}

} // verus!
