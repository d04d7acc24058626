//! Backend selection, and the FPSR bookkeeping that goes with it.
//!
//! This is the type the interpreter holds. It resolves "native or softfloat"
//! once, when FPCR changes, rather than at every call site: an instruction
//! implementation calls [`FpEngine::binary`] and never learns which backend
//! answered.
//!
//! The native backend computes with host floats, so it lives outside this
//! library; the engine is generic over it and owns the reference backend
//! itself.
use vstd::prelude::*;
use super::backend::{
    sign_applied, FpBackend, FpBinaryOp, FpFmaOperands, FpOperands, FpSignOp, FpUnaryOp, FpValue,
    FromIntegerSource, ToIntegerTarget,
};
use super::control::{accumulate, control_of, is_default_mode_bits, lemma_accumulate_is_sticky, FpControl};
use super::operand::{FpComparison, FpFormat, FpResult, FpRounding};
use super::softfloat::compare::comparison;
use super::softfloat::{binary_result, from_integer_result, fused_operands, context_for, to_integer_result, unary_result, Softfloat};
use super::softfloat::fused::fused_result;
use super::softfloat::convert::format_converted;

verus! {

/// Whether this build routes everything through the reference implementation.
///
/// Precise mode is the configuration every differential FP run uses; this
/// build is not one, so the native backend serves default-mode FPCR.
pub const IS_PRECISE_BUILD: bool = false;

/// Which backend is serving the current FPCR.
#[derive(Debug, Clone, Copy, PartialEq, Eq, Structural)]
pub enum Selected {
    /// Host float operations.
    Native,
    /// The bit-exact reference.
    Reference,
}

/// The backend an FPCR value selects: the reference in a precise build or
/// whenever a meaningful FPCR bit is set, the native backend otherwise.
pub open spec fn selection(fpcr: u64) -> Selected {
    if IS_PRECISE_BUILD || !control_of(fpcr).is_default_mode() {
        Selected::Reference
    } else {
        Selected::Native
    }
}

/// Picks the backend for an FPCR value.
///
/// Precise mode overrides the choice entirely, which is what lets a
/// differential run compare against QEMU without the native path's NaN-payload
/// and FPSR divergences in the way.
pub fn select(fpcr: u64) -> (r: Selected)
    ensures
        r == selection(fpcr),
{
    if IS_PRECISE_BUILD || !is_default_mode_bits(fpcr) {
        return Selected::Reference;
    }
    Selected::Native
}

/// Whether an FPCR value selects the native backend in this build.
pub fn selects_native_backend(fpcr: u64) -> (r: bool)
    ensures
        r == (selection(fpcr) == Selected::Native),
{
    match select(fpcr) {
        Selected::Native => true,
        Selected::Reference => false,
    }
}

/// The floating-point unit the interpreter drives.
///
/// Holds the selected backend, the interpreted FPCR, and the FPSR bits raised
/// so far. Callers reach the backends only through this type's methods, which
/// is what keeps the selection from leaking.
#[derive(Debug, Clone, Copy)]
pub struct FpEngine<N> {
    native: N,
    reference: Softfloat,
    selected: Selected,
    control: FpControl,
    /// Cumulative exception flags, in their FPSR bit positions.
    ///
    /// Only ever written by a backend that reports flags, so in a default-mode
    /// build this stays zero: the native backend's documented divergence.
    exceptions: u64,
}

impl<N: FpBackend> FpEngine<N> {
    /// The backend serving the current FPCR.
    pub closed spec fn selected_backend(self) -> Selected {
        self.selected
    }

    /// The host-float backend the engine was built with.
    pub closed spec fn native_backend(self) -> N {
        self.native
    }

    /// The interpreted FPCR.
    pub closed spec fn fpcr_control(self) -> FpControl {
        self.control
    }

    /// The cumulative exception flags.
    pub closed spec fn fpsr(self) -> u64 {
        self.exceptions
    }

    /// Whether the engine's view of FPCR is the one `fpcr` selects.
    pub open spec fn serves(self, fpcr: u64) -> bool {
        self.selected_backend() == selection(fpcr) && self.fpcr_control() == control_of(fpcr)
    }

    /// An engine in the reset state: default FPCR, no flags raised.
    pub fn new(native: N) -> (r: FpEngine<N>)
        ensures
            r.serves(0),
            r.fpsr() == 0,
            r.native_backend() == native,
    {
        Self::with_fpcr(0, native)
    }

    /// An engine serving `fpcr`.
    pub fn with_fpcr(fpcr: u64, native: N) -> (r: FpEngine<N>)
        ensures
            r.serves(fpcr),
            r.fpsr() == 0,
            r.native_backend() == native,
    {
        FpEngine {
            native,
            reference: Softfloat::new(),
            selected: select(fpcr),
            control: FpControl::from_bits(fpcr),
            exceptions: 0,
        }
    }

    /// Re-selects the backend for a new FPCR value.
    ///
    /// The interpreter calls this from its `MSR FPCR` implementation and
    /// nowhere else; every other path reads the cached selection.
    pub fn set_fpcr(&mut self, fpcr: u64)
        ensures
            final(self).serves(fpcr),
            final(self).fpsr() == old(self).fpsr(),
            final(self).native_backend() == old(self).native_backend(),
    {
        self.selected = select(fpcr);
        self.control = FpControl::from_bits(fpcr);
    }

    /// The interpreted FPCR.
    pub fn control(&self) -> (r: FpControl)
        ensures
            r == self.fpcr_control(),
    {
        self.control
    }

    /// The cumulative exception flags, for `MRS ..., FPSR`.
    pub fn exceptions(&self) -> (r: u64)
        ensures
            r == self.fpsr(),
    {
        self.exceptions
    }

    /// Replaces the cumulative flags, for `MSR FPSR, ...`.
    pub fn set_exceptions(&mut self, fpsr: u64)
        ensures
            final(self).fpsr() == fpsr,
            final(self).native_backend() == old(self).native_backend(),
            final(self).selected_backend() == old(self).selected_backend(),
            final(self).fpcr_control() == old(self).fpcr_control(),
    {
        self.exceptions = fpsr;
    }

    /// Whether the selected backend maintains FPSR.
    pub fn tracks_exceptions(&self) -> (r: bool)
        ensures
            r == match self.selected_backend() {
                Selected::Native => self.native_backend().tracks(),
                Selected::Reference => true,
            },
    {
        match self.selected {
            Selected::Native => self.native.tracks_exceptions(),
            Selected::Reference => self.reference.tracks_exceptions(),
        }
    }

    /// The rounding mode an instruction gets when its encoding names none.
    pub fn default_rounding(&self) -> (r: FpRounding)
        ensures
            r == self.fpcr_control().rounding,
    {
        self.control.rounding
    }

    /// How an operation leaves the engine: the selection and FPCR as they
    /// were, and `raised` added to the cumulative flags.
    pub open spec fn recorded(self, before: FpEngine<N>, raised: u8) -> bool {
        &&& self.native_backend() == before.native_backend()
        &&& self.selected_backend() == before.selected_backend()
        &&& self.fpcr_control() == before.fpcr_control()
        &&& self.fpsr() == before.fpsr() | raised as u64
    }

    /// Records a result's flags and hands back its bits.
    fn record(&mut self, result: FpResult) -> (r: u64)
        ensures
            r == result.bits,
            final(self).recorded(*old(self), result.raised.flags()),
            final(self).fpsr() & old(self).fpsr() == old(self).fpsr(),
    {
        proof { lemma_accumulate_is_sticky(self.exceptions, result.raised.flags()); }
        self.exceptions = accumulate(self.exceptions, result.raised);
        result.bits
    }

    /// Two-operand arithmetic.
    pub fn binary(&mut self, op: FpBinaryOp, operands: FpOperands) -> (r: u64)
        ensures
            final(self).fpsr() & old(self).fpsr() == old(self).fpsr(),
            old(self).selected_backend() == Selected::Reference ==> {
                let result = binary_result(op, operands, old(self).fpcr_control());
                &&& r == result.bits
                &&& final(self).recorded(*old(self), result.raised.flags())
            },
    {
        let result = match self.selected {
            Selected::Native => self.native.binary(op, operands, self.control),
            Selected::Reference => self.reference.binary(op, operands, self.control),
        };
        self.record(result)
    }

    /// One-operand arithmetic.
    pub fn unary(&mut self, op: FpUnaryOp, operand: FpValue, rounding: FpRounding) -> (r: u64)
        ensures
            final(self).fpsr() & old(self).fpsr() == old(self).fpsr(),
            old(self).selected_backend() == Selected::Reference ==> {
                let result = unary_result(op, operand, rounding, old(self).fpcr_control());
                &&& r == result.bits
                &&& final(self).recorded(*old(self), result.raised.flags())
            },
    {
        let result = match self.selected {
            Selected::Native => self.native.unary(op, operand, rounding, self.control),
            Selected::Reference => self.reference.unary(op, operand, rounding, self.control),
        };
        self.record(result)
    }

    /// Fused multiply-add.
    pub fn fused_multiply_add(&mut self, operands: FpFmaOperands) -> (r: u64)
        ensures
            final(self).fpsr() & old(self).fpsr() == old(self).fpsr(),
            old(self).selected_backend() == Selected::Reference ==> {
                let result = fused_result(
                    fused_operands(operands),
                    context_for(operands.format, operands.rounding, old(self).fpcr_control()),
                );
                &&& r == result.bits
                &&& final(self).recorded(*old(self), result.raised.flags())
            },
    {
        let result = match self.selected {
            Selected::Native => self.native.fused_multiply_add(operands, self.control),
            Selected::Reference => self.reference.fused_multiply_add(operands, self.control),
        };
        self.record(result)
    }

    /// Negation and absolute value, which raise nothing.
    pub fn copy_sign(&self, value: FpValue, op: FpSignOp) -> (r: u64)
        ensures
            r == sign_applied(value.bits, value.format, op),
    {
        match self.selected {
            Selected::Native => self.native.copy_sign(value, op),
            Selected::Reference => self.reference.copy_sign(value, op),
        }
    }

    /// Ordered comparison, returning the NZCV the architecture writes.
    pub fn compare(&mut self, operands: FpOperands, is_signalling: bool) -> (r: u8)
        ensures
            final(self).fpsr() & old(self).fpsr() == old(self).fpsr(),
            final(self).selected_backend() == old(self).selected_backend(),
            final(self).fpcr_control() == old(self).fpcr_control(),
            old(self).selected_backend() == Selected::Reference
                ==> r == comparison(operands.lhs, operands.rhs, operands.format).to_nzcv(),
    {
        let ordering = self.compare_ordering_signalling(operands, is_signalling);
        ordering.to_nzcv()
    }

    /// Comparison as an ordering rather than as flags, for the vector forms.
    pub fn compare_ordering(&mut self, operands: FpOperands) -> (r: FpComparison)
        ensures
            final(self).fpsr() & old(self).fpsr() == old(self).fpsr(),
            final(self).selected_backend() == old(self).selected_backend(),
            final(self).fpcr_control() == old(self).fpcr_control(),
            old(self).selected_backend() == Selected::Reference
                ==> r == comparison(operands.lhs, operands.rhs, operands.format),
    {
        self.compare_ordering_signalling(operands, false)
    }

    /// Asks the selected backend for an ordering and records what it raised.
    fn compare_ordering_signalling(&mut self, operands: FpOperands, is_signalling: bool) -> (r: FpComparison)
        ensures
            final(self).fpsr() & old(self).fpsr() == old(self).fpsr(),
            final(self).selected_backend() == old(self).selected_backend(),
            final(self).fpcr_control() == old(self).fpcr_control(),
            old(self).selected_backend() == Selected::Reference
                ==> r == comparison(operands.lhs, operands.rhs, operands.format),
    {
        let (ordering, raised) = match self.selected {
            Selected::Native => self.native.compare(operands, is_signalling),
            Selected::Reference => self.reference.compare(operands, is_signalling),
        };
        proof { lemma_accumulate_is_sticky(self.exceptions, raised.flags()); }
        self.exceptions = accumulate(self.exceptions, raised);
        ordering
    }

    /// Conversion between FP formats.
    pub fn convert_format(&mut self, value: FpValue, target: FpFormat) -> (r: u64)
        ensures
            final(self).fpsr() & old(self).fpsr() == old(self).fpsr(),
            old(self).selected_backend() == Selected::Reference ==> {
                let control = old(self).fpcr_control();
                let result = format_converted(value.bits, value.format, target, control, control.rounding);
                &&& r == result.bits
                &&& final(self).recorded(*old(self), result.raised.flags())
            },
    {
        let result = match self.selected {
            Selected::Native => self.native.convert_format(value, target, self.control),
            Selected::Reference => self.reference.convert_format(value, target, self.control),
        };
        self.record(result)
    }

    /// FP to integer.
    pub fn to_integer(&mut self, value: FpValue, target: ToIntegerTarget) -> (r: u64)
        requires
            1 <= target.format.bits <= 64,
        ensures
            final(self).fpsr() & old(self).fpsr() == old(self).fpsr(),
            old(self).selected_backend() == Selected::Reference ==> {
                let result = to_integer_result(value, target);
                &&& r == result.bits
                &&& final(self).recorded(*old(self), result.raised.flags())
            },
    {
        let result = match self.selected {
            Selected::Native => self.native.to_integer(value, target, self.control),
            Selected::Reference => self.reference.to_integer(value, target, self.control),
        };
        self.record(result)
    }

    /// Integer to FP.
    pub fn from_integer(&mut self, value: u64, source: FromIntegerSource) -> (r: u64)
        requires
            1 <= source.format.bits <= 64,
        ensures
            final(self).fpsr() & old(self).fpsr() == old(self).fpsr(),
            old(self).selected_backend() == Selected::Reference ==> {
                let result = from_integer_result(value, source, old(self).fpcr_control());
                &&& r == result.bits
                &&& final(self).recorded(*old(self), result.raised.flags())
            },
    {
        let result = match self.selected {
            Selected::Native => self.native.from_integer(value, source, self.control),
            Selected::Reference => self.reference.from_integer(value, source, self.control),
        };
        self.record(result)
    }
}

} // verus!
