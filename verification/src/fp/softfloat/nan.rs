//! NaN propagation, as the architecture's `FPProcessNaNs` defines it.
//!
//! Isolated from the arithmetic because every operation shares it and because
//! it is the part a differential run against QEMU exercises hardest. The rules,
//! in order: a signalling NaN operand raises invalid and is quietened; the
//! first NaN operand in operand order wins; `FPCR.DN` replaces any NaN result
//! with the default NaN.
use vstd::prelude::*;
use crate::fp::control::{FpControl, FpExceptions, FPSR_IOC};
use crate::fp::operand::{FpFormat, FpResult};

verus! {

/// Whether any of `operands` is a NaN.
pub open spec fn has_nan(operands: Seq<u64>, format: FpFormat) -> bool {
    exists|i: int| 0 <= i < operands.len() && format.nan(#[trigger] operands[i])
}

/// Whether any of `operands` is a signalling NaN.
pub open spec fn has_signalling(operands: Seq<u64>, format: FpFormat) -> bool {
    exists|i: int| 0 <= i < operands.len() && format.signalling(#[trigger] operands[i])
}

/// The index of the first NaN among `operands`.
pub open spec fn first_nan(operands: Seq<u64>, format: FpFormat) -> int
    decreases operands.len(),
{
    if operands.len() == 0 || format.nan(operands[0]) {
        0
    } else {
        1 + first_nan(operands.drop_first(), format)
    }
}

/// The NaN a result carries: the default NaN under `FPCR.DN`, otherwise the
/// given NaN quietened with its payload intact.
pub open spec fn nan_result(bits: u64, format: FpFormat, control: FpControl) -> u64 {
    if control.is_default_nan { format.default_nan() } else { format.quieted(bits) }
}

/// The invalid flag if `raises`, nothing otherwise.
pub open spec fn invalid_if(raises: bool) -> FpExceptions {
    FpExceptions::with_flags(if raises { FPSR_IOC } else { 0 })
}

/// What [`propagate`] returns for `operands`: nothing when no operand is a
/// NaN, and otherwise the first NaN's result, raising invalid when some
/// operand is a signalling NaN.
pub open spec fn propagated(operands: Seq<u64>, format: FpFormat, control: FpControl) -> Option<FpResult> {
    if has_nan(operands, format) {
        Some(FpResult {
            bits: nan_result(operands[first_nan(operands, format)], format, control),
            raised: invalid_if(has_signalling(operands, format)),
        })
    } else {
        None
    }
}

/// `first_nan` names a NaN, and none comes before it.
proof fn lemma_first_nan(operands: Seq<u64>, format: FpFormat)
    requires
        has_nan(operands, format),
    ensures
        0 <= first_nan(operands, format) < operands.len(),
        format.nan(operands[first_nan(operands, format)]),
        forall|i: int| 0 <= i < first_nan(operands, format) ==> !format.nan(#[trigger] operands[i]),
    decreases operands.len(),
{
    if !format.nan(operands[0]) {
        let i = choose|i: int| 0 <= i < operands.len() && format.nan(#[trigger] operands[i]);
        assert(format.nan(operands.drop_first()[i - 1]));
        lemma_first_nan(operands.drop_first(), format);
        assert forall|j: int| 0 <= j < first_nan(operands, format) implies !format.nan(#[trigger] operands[j]) by {
            if j > 0 {
                assert(operands[j] == operands.drop_first()[j - 1]);
            }
        }
    }
}

/// NaN propagation takes the first NaN in operand order: when operand `i`
/// is a NaN and none before it is, the result is that operand quietened
/// (payload kept), or the default NaN under `FPCR.DN`, and invalid is raised
/// exactly when some operand is a signalling NaN.
pub proof fn lemma_propagation_takes_first_nan(operands: Seq<u64>, format: FpFormat, control: FpControl, i: int)
    requires
        0 <= i < operands.len(),
        format.nan(operands[i]),
        forall|j: int| 0 <= j < i ==> !format.nan(#[trigger] operands[j]),
    ensures
        propagated(operands, format, control) == Some(FpResult {
            bits: if control.is_default_nan { format.default_nan() } else { format.quieted(operands[i]) },
            raised: FpExceptions::with_flags(
                if exists|k: int| 0 <= k < operands.len() && format.signalling(#[trigger] operands[k]) { FPSR_IOC } else { 0 },
            ),
        }),
{
    assert(has_nan(operands, format));
    lemma_first_nan(operands, format);
    let first = first_nan(operands, format);
    if first < i {
        assert(!format.nan(operands[first]));
    }
    if first > i {
        assert(!format.nan(operands[i]));
    }
}

/// The NaN result an operation with these operands must produce, if any.
///
/// `None` means no operand was a NaN and the caller proceeds with arithmetic.
/// Otherwise the result is the first NaN in operand order, quietened (or the
/// default NaN under `FPCR.DN`), raising invalid exactly when some operand is
/// a signalling NaN.
pub fn propagate(operands: &[u64], format: FpFormat, control: FpControl) -> (r: Option<FpResult>)
    ensures
        r == propagated(operands@, format, control),
        r is None <==> !has_nan(operands@, format),
        r matches Some(result) ==> result == (FpResult {
            bits: nan_result(operands@[first_nan(operands@, format)], format, control),
            raised: invalid_if(has_signalling(operands@, format)),
        }),
{
    let raises_invalid = signalling_among(operands, format);
    let mut index: usize = 0;
    while index < operands.len()
        invariant
            raises_invalid == has_signalling(operands@, format),
            index <= operands@.len(),
            forall|i: int| 0 <= i < index ==> !format.nan(#[trigger] operands@[i]),
        decreases operands@.len() - index,
    {
        if format.is_nan(operands[index]) {
            proof {
                lemma_first_nan(operands@, format);
                let first = first_nan(operands@, format);
                if first < index {
                    assert(!format.nan(operands@[first]));
                } else if first > index {
                    assert(!format.nan(operands@[index as int]));
                }
                assert(first == index);
            }
            let raised = if raises_invalid { FpExceptions::invalid() } else { FpExceptions::none() };
            return Some(FpResult::raising(quiet_result(operands[index], format, control), raised));
        }
        index = index + 1;
    }
    None
}

/// The NaN an invalid operation produces when no operand is a NaN — `0/0`,
/// `inf - inf`, and their kind: the default NaN, raising invalid.
pub fn invalid_operation(format: FpFormat) -> (r: FpResult)
    ensures
        r == (FpResult { bits: format.default_nan(), raised: invalid_if(true) }),
{
    FpResult::raising(format.default_nan(), FpExceptions::invalid())
}

/// Quietens a NaN, honouring `FPCR.DN`.
fn quiet_result(bits: u64, format: FpFormat, control: FpControl) -> (r: u64)
    ensures
        r == nan_result(bits, format, control),
{
    if control.is_default_nan {
        format.default_nan()
    } else {
        format.quieten(bits)
    }
}

/// Whether a signalling NaN among the operands should raise invalid, for the
/// operations that inspect NaNs without producing one — the comparisons.
pub fn signalling_among(operands: &[u64], format: FpFormat) -> (r: bool)
    ensures
        r == has_signalling(operands@, format),
{
    let mut index: usize = 0;
    while index < operands.len()
        invariant
            index <= operands@.len(),
            forall|i: int| 0 <= i < index ==> !format.signalling(#[trigger] operands@[i]),
        decreases operands@.len() - index,
    {
        if format.is_signalling_nan(operands[index]) {
            return true;
        }
        index = index + 1;
    }
    false
}

/// Whether any operand is a NaN at all.
pub fn any_nan(operands: &[u64], format: FpFormat) -> (r: bool)
    ensures
        r == has_nan(operands@, format),
{
    let mut index: usize = 0;
    while index < operands.len()
        invariant
            index <= operands@.len(),
            forall|i: int| 0 <= i < index ==> !format.nan(#[trigger] operands@[i]),
        decreases operands@.len() - index,
    {
        if format.is_nan(operands[index]) {
            return true;
        }
        index = index + 1;
    }
    false
}

} // verus!
