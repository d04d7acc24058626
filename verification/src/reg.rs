//! Register identity, as the decoder and the trace layer both name it.
//!
//! Two vocabularies meet here and must not be confused:
//!
//! - [`Gpr`] and [`Vec`] are *decoded operands*. `x31` has already been
//!   resolved to either [`Gpr::ZR`] or [`Gpr::SP`] by the decoder, so the
//!   register file never has to guess which the encoding meant.
//! - [`trace_reg_id`] is the wire contract of the trace stream. Those numbers
//!   are never renumbered.
use vstd::prelude::*;

pub mod trace_reg_id;

verus! {

/// Number of architectural general-purpose registers excluding `SP` and `XZR`.
pub const NUM_GPR: usize = 31;

/// A general-purpose register operand, after `x31` has been resolved.
///
/// The architecture spends encoding bits on a single field that means `xzr` in
/// most instructions and `sp` in a few. Resolving it at decode time is what
/// lets the register file be a plain array read.
#[derive(Debug, Clone, Copy, PartialEq, Eq, PartialOrd, Ord, Hash, Structural)]
pub enum Gpr {
    /// `x0`–`x30`.
    X(u8),
    /// The stack pointer, where the encoding selects `SP` for slot 31.
    SP,
    /// The zero register, where the encoding selects `XZR`/`WZR` for slot 31.
    ZR,
}

impl Gpr {
    /// Whether this operand names a storage location the register file has:
    /// `x0`–`x30`, `SP` or the zero register.
    pub open spec fn is_valid(self) -> bool {
        match self {
            Gpr::X(index) => index < 31,
            _ => true,
        }
    }

    /// Resolves encoding slot `index` where slot 31 means the zero register.
    #[verifier::allow_in_spec]
    pub fn from_index_zr(index: u8) -> (r: Gpr)
        requires
            index < 32,
        returns
            (if index == 31 { Gpr::ZR } else { Gpr::X(index) }),
    {
        if index == 31 {
            Gpr::ZR
        } else {
            Gpr::X(index)
        }
    }

    /// Resolves encoding slot `index` where slot 31 means the stack pointer.
    #[verifier::allow_in_spec]
    pub fn from_index_sp(index: u8) -> (r: Gpr)
        requires
            index < 32,
        returns
            (if index == 31 { Gpr::SP } else { Gpr::X(index) }),
    {
        if index == 31 {
            Gpr::SP
        } else {
            Gpr::X(index)
        }
    }

    /// Whether writes to this operand are discarded.
    #[verifier::allow_in_spec]
    pub fn is_zero(self) -> (r: bool)
        returns
            self is ZR,
    {
        matches!(self, Gpr::ZR)
    }
}

/// A SIMD/FP register operand, `v0`–`v31`.
///
/// The same physical file is addressed as `b`/`h`/`s`/`d`/`q` scalars and as
/// vectors; the width lives in the instruction's size fields, not here.
#[derive(Debug, Clone, Copy, PartialEq, Eq, PartialOrd, Ord, Hash, Structural)]
pub struct Vec(u8);

/// Number of SIMD/FP registers.
pub const VEC_COUNT: usize = 32;

impl Vec {
    /// Every register names a slot below [`VEC_COUNT`].
    #[verifier::type_invariant]
    spec fn is_in_range(self) -> bool {
        self.0 < 32
    }

    /// The encoding slot this register occupies, as a number.
    pub closed spec fn slot(self) -> u8 {
        self.0
    }

    /// The register at encoding slot `index`.
    pub closed spec fn at(index: u8) -> Vec {
        Vec(index)
    }

    /// The register at a slot names that slot.
    pub proof fn lemma_at_slot(index: u8)
        ensures
            Vec::at(index).slot() == index,
    {
    }

    /// Wraps an encoding slot.
    pub fn new(index: u8) -> (r: Vec)
        requires
            index < 32,
        ensures
            r == Vec::at(index),
            r.slot() == index,
    {
        Vec(index)
    }

    /// The encoding slot this register occupies.
    pub fn index(self) -> (r: u8)
        ensures
            r == self.slot(),
            r < 32,
    {
        proof { use_type_invariant(&self); }
        self.0
    }
}

} // verus!
