//! Operand vocabulary shared by every A64 instruction group.
//!
//! The A64 encoding reuses a small set of operand shapes across hundreds of
//! mnemonics: a shifted register, an extended register, a scaled or unscaled
//! memory offset, a condition code. Naming each shape once — rather than once
//! per instruction — is what keeps [`crate::decode::instruction::Instruction`]
//! flat.
use vstd::prelude::*;
use crate::reg::{Gpr, Vec};

verus! {

/// Operand register width for the integer datapath.
///
/// `sf` in the encoding. Selects both the operand width and, on a write,
/// whether the upper 32 bits are zeroed.
#[derive(Debug, Clone, Copy, PartialEq, Eq, Structural)]
pub enum RegWidth {
    /// 32-bit `W` form.
    W32,
    /// 64-bit `X` form.
    X64,
}

impl RegWidth {
    /// Decodes the `sf` bit.
    #[verifier::allow_in_spec]
    pub fn from_sf(sf: bool) -> (r: RegWidth)
        returns
            (if sf { RegWidth::X64 } else { RegWidth::W32 }),
    {
        if sf {
            RegWidth::X64
        } else {
            RegWidth::W32
        }
    }

    /// Width in bits.
    #[verifier::allow_in_spec]
    pub fn bits(self) -> (r: u32)
        returns
            (match self {
                RegWidth::W32 => 32u32,
                RegWidth::X64 => 64u32,
            }),
    {
        match self {
            RegWidth::W32 => 32,
            RegWidth::X64 => 64,
        }
    }

    /// The number of values an operand of this width can hold, `2^bits`.
    pub open spec fn modulus(self) -> int {
        match self {
            RegWidth::W32 => 0x1_0000_0000,
            RegWidth::X64 => 0x1_0000_0000_0000_0000,
        }
    }

    /// The weight of the sign bit, `2^(bits - 1)`.
    pub open spec fn sign_weight(self) -> int {
        self.modulus() / 2
    }

    /// The two's-complement value of `value`, read at this width.
    pub open spec fn signed(self, value: int) -> int {
        if value >= self.sign_weight() { value - self.modulus() } else { value }
    }

    /// Mask covering the operand's significant bits.
    #[verifier::allow_in_spec]
    pub fn mask(self) -> (r: u64)
        returns
            (match self {
                RegWidth::W32 => 0xffff_ffffu64,
                RegWidth::X64 => 0xffff_ffff_ffff_ffffu64,
            }),
    {
        match self {
            RegWidth::W32 => 0xffff_ffff,
            RegWidth::X64 => u64::MAX,
        }
    }
}

/// How a register operand is shifted before use.
///
/// The `shift` field of data-processing (register) encodings. `ROR` is legal
/// only for the logical group; the arithmetic group's decoder rejects it.
#[derive(Debug, Clone, Copy, PartialEq, Eq, Structural)]
pub enum ShiftKind {
    /// Logical shift left.
    Lsl,
    /// Logical shift right.
    Lsr,
    /// Arithmetic shift right.
    Asr,
    /// Rotate right.
    Ror,
}

/// A register operand with a constant shift applied.
#[derive(Debug, Clone, Copy, PartialEq, Eq, Structural)]
pub struct ShiftedReg {
    /// The register to read.
    pub reg: Gpr,
    /// Shift applied to the read value.
    pub kind: ShiftKind,
    /// Shift amount, already range-checked against the operand width.
    pub amount: u8,
}

/// How a register operand is extended and shifted before use.
///
/// The `option` field of the add/sub extended-register and load/store
/// register-offset encodings.
#[derive(Debug, Clone, Copy, PartialEq, Eq, Structural)]
pub enum ExtendKind {
    /// Unsigned extend byte.
    Uxtb,
    /// Unsigned extend halfword.
    Uxth,
    /// Unsigned extend word.
    Uxtw,
    /// Unsigned extend doubleword (a no-op widening).
    Uxtx,
    /// Signed extend byte.
    Sxtb,
    /// Signed extend halfword.
    Sxth,
    /// Signed extend word.
    Sxtw,
    /// Signed extend doubleword (a no-op widening).
    Sxtx,
}

impl ExtendKind {
    /// Decodes the 3-bit `option` field; bits above it are ignored.
    #[verifier::allow_in_spec]
    pub fn from_option(option: u8) -> (r: ExtendKind)
        returns
            (match option % 8 {
                0 => ExtendKind::Uxtb,
                1 => ExtendKind::Uxth,
                2 => ExtendKind::Uxtw,
                3 => ExtendKind::Uxtx,
                4 => ExtendKind::Sxtb,
                5 => ExtendKind::Sxth,
                6 => ExtendKind::Sxtw,
                _ => ExtendKind::Sxtx,
            }),
    {
        match option % 8 {
            0 => ExtendKind::Uxtb,
            1 => ExtendKind::Uxth,
            2 => ExtendKind::Uxtw,
            3 => ExtendKind::Uxtx,
            4 => ExtendKind::Sxtb,
            5 => ExtendKind::Sxth,
            6 => ExtendKind::Sxtw,
            _ => ExtendKind::Sxtx,
        }
    }

    /// Number of source bits taken from the register before extension.
    #[verifier::allow_in_spec]
    pub fn source_bits(self) -> (r: u32)
        returns
            (match self {
                ExtendKind::Uxtb | ExtendKind::Sxtb => 8u32,
                ExtendKind::Uxth | ExtendKind::Sxth => 16u32,
                ExtendKind::Uxtw | ExtendKind::Sxtw => 32u32,
                ExtendKind::Uxtx | ExtendKind::Sxtx => 64u32,
            }),
    {
        match self {
            ExtendKind::Uxtb | ExtendKind::Sxtb => 8,
            ExtendKind::Uxth | ExtendKind::Sxth => 16,
            ExtendKind::Uxtw | ExtendKind::Sxtw => 32,
            ExtendKind::Uxtx | ExtendKind::Sxtx => 64,
        }
    }

    /// Whether the extension replicates the source's sign bit.
    #[verifier::allow_in_spec]
    pub fn is_signed(self) -> (r: bool)
        returns
            self is Sxtb || self is Sxth || self is Sxtw || self is Sxtx,
    {
        matches!(self, ExtendKind::Sxtb | ExtendKind::Sxth | ExtendKind::Sxtw | ExtendKind::Sxtx)
    }
}

/// A register operand extended from a narrower width, then shifted left.
#[derive(Debug, Clone, Copy, PartialEq, Eq, Structural)]
pub struct ExtendedReg {
    /// The register to read.
    pub reg: Gpr,
    /// Extension applied to the read value.
    pub kind: ExtendKind,
    /// Left shift applied after extension, 0–4.
    pub amount: u8,
}

/// AArch64 condition codes, in encoding order.
#[derive(Debug, Clone, Copy, PartialEq, Eq, Structural)]
pub enum Cond {
    /// Equal: `Z == 1`.
    Eq,
    /// Not equal.
    Ne,
    /// Carry set / unsigned higher or same.
    Cs,
    /// Carry clear / unsigned lower.
    Cc,
    /// Minus / negative.
    Mi,
    /// Plus / positive or zero.
    Pl,
    /// Overflow set.
    Vs,
    /// Overflow clear.
    Vc,
    /// Unsigned higher.
    Hi,
    /// Unsigned lower or same.
    Ls,
    /// Signed greater than or equal.
    Ge,
    /// Signed less than.
    Lt,
    /// Signed greater than.
    Gt,
    /// Signed less than or equal.
    Le,
    /// Always. `AL` and `NV` both test true; the encodings differ, the
    /// behaviour does not.
    Al,
    /// Never — architecturally identical to [`Cond::Al`], kept distinct so an
    /// encode/decode round trip is lossless.
    Nv,
}

impl Cond {
    /// The 4-bit `cond` field that encodes this condition.
    pub open spec fn code(self) -> u8 {
        match self {
            Cond::Eq => 0,
            Cond::Ne => 1,
            Cond::Cs => 2,
            Cond::Cc => 3,
            Cond::Mi => 4,
            Cond::Pl => 5,
            Cond::Vs => 6,
            Cond::Vc => 7,
            Cond::Hi => 8,
            Cond::Ls => 9,
            Cond::Ge => 10,
            Cond::Lt => 11,
            Cond::Gt => 12,
            Cond::Le => 13,
            Cond::Al => 14,
            Cond::Nv => 15,
        }
    }

    /// The condition whose `cond` field is `code`, for `code` below 16.
    pub open spec fn from_code(code: u8) -> Cond {
        if code == 0 { Cond::Eq }
        else if code == 1 { Cond::Ne }
        else if code == 2 { Cond::Cs }
        else if code == 3 { Cond::Cc }
        else if code == 4 { Cond::Mi }
        else if code == 5 { Cond::Pl }
        else if code == 6 { Cond::Vs }
        else if code == 7 { Cond::Vc }
        else if code == 8 { Cond::Hi }
        else if code == 9 { Cond::Ls }
        else if code == 10 { Cond::Ge }
        else if code == 11 { Cond::Lt }
        else if code == 12 { Cond::Gt }
        else if code == 13 { Cond::Le }
        else if code == 14 { Cond::Al }
        else { Cond::Nv }
    }

    /// Decoding a condition's own field gives the condition back, and every
    /// field value below 16 names the condition that encodes as it.
    pub proof fn lemma_code_round_trip(self, code: u8)
        ensures
            Cond::from_code(self.code()) == self,
            self.code() < 16,
            code < 16 ==> Cond::from_code(code).code() == code,
    {
    }

    /// Decodes the 4-bit `cond` field; bits above it are ignored.
    #[verifier::allow_in_spec]
    pub fn from_bits(bits: u8) -> (r: Cond)
        returns
            Cond::from_code(bits % 16),
    {
        let code = bits % 16;
        if code == 0 { Cond::Eq }
        else if code == 1 { Cond::Ne }
        else if code == 2 { Cond::Cs }
        else if code == 3 { Cond::Cc }
        else if code == 4 { Cond::Mi }
        else if code == 5 { Cond::Pl }
        else if code == 6 { Cond::Vs }
        else if code == 7 { Cond::Vc }
        else if code == 8 { Cond::Hi }
        else if code == 9 { Cond::Ls }
        else if code == 10 { Cond::Ge }
        else if code == 11 { Cond::Lt }
        else if code == 12 { Cond::Gt }
        else if code == 13 { Cond::Le }
        else if code == 14 { Cond::Al }
        else { Cond::Nv }
    }

    /// The condition that is true exactly when this one is false.
    ///
    /// `AL` and `NV` are the exception: both test true, so neither has an
    /// inverse and this returns them unchanged. For every other condition the
    /// inverse flips the lowest bit of the `cond` field.
    pub fn invert(self) -> (r: Cond)
        ensures
            self.code() < 14 ==> r.code() == (if self.code() % 2 == 0 { self.code() + 1 } else { self.code() - 1 }),
            self.code() >= 14 ==> r == self,
    {
        match self {
            Cond::Eq => Cond::Ne,
            Cond::Ne => Cond::Eq,
            Cond::Cs => Cond::Cc,
            Cond::Cc => Cond::Cs,
            Cond::Mi => Cond::Pl,
            Cond::Pl => Cond::Mi,
            Cond::Vs => Cond::Vc,
            Cond::Vc => Cond::Vs,
            Cond::Hi => Cond::Ls,
            Cond::Ls => Cond::Hi,
            Cond::Ge => Cond::Lt,
            Cond::Lt => Cond::Ge,
            Cond::Gt => Cond::Le,
            Cond::Le => Cond::Gt,
            Cond::Al => Cond::Al,
            Cond::Nv => Cond::Nv,
        }
    }
}

/// Which part of a 128-bit register a vector arrangement occupies.
#[derive(Debug, Clone, Copy, PartialEq, Eq, Structural)]
pub enum VecHalf {
    /// The low 64 bits, upper half zeroed on write.
    Low,
    /// All 128 bits.
    Full,
}

/// Where a SIMD/FP operand's data sits inside its 128-bit register.
///
/// One type covers both the scalar forms (`b`/`h`/`s`/`d`/`q`) and the vector
/// arrangements, because the FP and NEON slices share the register file and the
/// same instruction encodings often differ only in `Q` and `size`.
#[derive(Debug, Clone, Copy, PartialEq, Eq, Structural)]
pub enum VecShape {
    /// A single element of the given width, in lane 0, upper bits zeroed on
    /// write.
    Scalar(ElemSize),
    /// `count` elements of `elem` width, filling the low 64 or full 128 bits.
    Vector {
        /// Element width.
        elem: ElemSize,
        /// Number of active lanes.
        count: u8,
        /// Which part of the register the lanes fill.
        half: VecHalf,
    },
    /// A single addressed lane of a vector register, for `INS`, `DUP`, `MOV`
    /// element forms and the indexed-element FP/NEON encodings.
    Element {
        /// Element width.
        elem: ElemSize,
        /// Lane index.
        index: u8,
    },
}

/// SIMD/FP element width.
#[derive(Debug, Clone, Copy, PartialEq, Eq, PartialOrd, Ord, Structural)]
pub enum ElemSize {
    /// 8-bit.
    B8,
    /// 16-bit.
    H16,
    /// 32-bit.
    S32,
    /// 64-bit.
    D64,
    /// 128-bit. Scalar `Q` forms only; there is no 128-bit lane.
    Q128,
}

impl ElemSize {
    /// Width in bits.
    #[verifier::allow_in_spec]
    pub fn bits(self) -> (r: u32)
        returns
            (match self {
                ElemSize::B8 => 8u32,
                ElemSize::H16 => 16u32,
                ElemSize::S32 => 32u32,
                ElemSize::D64 => 64u32,
                ElemSize::Q128 => 128u32,
            }),
    {
        match self {
            ElemSize::B8 => 8,
            ElemSize::H16 => 16,
            ElemSize::S32 => 32,
            ElemSize::D64 => 64,
            ElemSize::Q128 => 128,
        }
    }

    /// Decodes a 2-bit `size` field, which never selects the `Q` form.
    #[verifier::allow_in_spec]
    pub fn from_size(size: u8) -> (r: ElemSize)
        returns
            (match size % 4 {
                0 => ElemSize::B8,
                1 => ElemSize::H16,
                2 => ElemSize::S32,
                _ => ElemSize::D64,
            }),
    {
        match size % 4 {
            0 => ElemSize::B8,
            1 => ElemSize::H16,
            2 => ElemSize::S32,
            _ => ElemSize::D64,
        }
    }
}

/// A SIMD/FP register operand together with how its data is laid out.
#[derive(Debug, Clone, Copy, PartialEq, Eq, Structural)]
pub struct VecOperand {
    /// The register to read or write.
    pub reg: Vec,
    /// Which bits of it participate.
    pub shape: VecShape,
}

/// The rounding an encoding names.
///
/// `Current` means "whatever FPCR says", resolved when the instruction runs;
/// the others are fixed by the encoding itself.
#[derive(Debug, Clone, Copy, PartialEq, Eq, Structural)]
pub enum RoundMode {
    /// Use `FPCR.RMode`.
    Current,
    /// To nearest, ties to even.
    Nearest,
    /// Toward positive infinity.
    Plus,
    /// Toward negative infinity.
    Minus,
    /// Toward zero.
    Zero,
    /// To nearest, ties away from zero.
    NearestAway,
}

} // verus!
