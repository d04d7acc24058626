//! Memory addressing modes, as one closed set.
//!
//! Every A64 load and store computes its address in one of these ways. Keeping
//! them in a single enum — rather than spreading base/offset/writeback fields
//! across the instruction — means there is one address-generation function and
//! every load/store opcode reuses it.
use vstd::prelude::*;
use super::operand::ExtendedReg;
use crate::reg::Gpr;

verus! {

/// When the base register is updated relative to the access.
#[derive(Debug, Clone, Copy, PartialEq, Eq, Structural)]
pub enum WriteBack {
    /// The base register is not updated.
    NoUpdate,
    /// The base is updated before the access; the access uses the new value.
    Pre,
    /// The base is updated after the access; the access uses the old value.
    Post,
}

/// How a load or store forms its effective address.
///
/// The base is [`Gpr::SP`] rather than [`Gpr::ZR`] for slot 31 in every one of
/// these forms — an SP-relative access is the common case, and the decoder has
/// already applied that rule.
#[derive(Debug, Clone, Copy, PartialEq, Eq, Structural)]
pub enum AddrMode {
    /// `[base, #offset]` with optional write-back.
    ///
    /// Covers the unsigned scaled offset (offset already multiplied by the
    /// access size), the signed unscaled forms, and pre/post-indexed forms,
    /// which differ only in [`WriteBack`].
    Immediate {
        /// Base register, `SP` for slot 31.
        base: Gpr,
        /// Byte offset, already scaled and sign-extended by the decoder.
        offset: i64,
        /// Whether and when the base is updated.
        writeback: WriteBack,
    },
    /// `[base, Xm, extend #amount]`, and the register post-index of the
    /// structure loads.
    Register {
        /// Base register, `SP` for slot 31.
        base: Gpr,
        /// Index register with its extension and scale.
        index: ExtendedReg,
        /// Whether and when the base is updated.
        writeback: WriteBack,
    },
    /// `label` — PC-relative, as used by `LDR (literal)`.
    ///
    /// The offset is relative to the address of this instruction.
    PcRelative {
        /// Byte offset from the instruction's own address.
        offset: i64,
    },
    /// `[base]` with no offset, as used by the exclusive and acquire/release
    /// forms, which have no offset field at all.
    BaseOnly {
        /// Base register, `SP` for slot 31.
        base: Gpr,
    },
}

impl AddrMode {
    /// Whether every register this mode reads names storage, and its index
    /// shift stays inside a 64-bit value.
    pub open spec fn registers_valid(self) -> bool {
        match self {
            AddrMode::Immediate { base, .. } => base.is_valid(),
            AddrMode::Register { base, index, .. } => base.is_valid() && index.reg.is_valid() && index.amount < 64,
            AddrMode::BaseOnly { base } => base.is_valid(),
            AddrMode::PcRelative { .. } => true,
        }
    }

    /// The base register, when the mode has one.
    ///
    /// `None` for [`AddrMode::PcRelative`], whose address does not read a
    /// register.
    #[verifier::allow_in_spec]
    pub fn base(self) -> (r: Option<Gpr>)
        returns
            (match self {
                AddrMode::Immediate { base, .. } => Some(base),
                AddrMode::Register { base, .. } => Some(base),
                AddrMode::BaseOnly { base } => Some(base),
                AddrMode::PcRelative { .. } => None,
            }),
    {
        match self {
            AddrMode::Immediate { base, .. } => Some(base),
            AddrMode::Register { base, .. } => Some(base),
            AddrMode::BaseOnly { base } => Some(base),
            AddrMode::PcRelative { .. } => None,
        }
    }

    /// Whether this access updates its base register.
    #[verifier::allow_in_spec]
    pub fn has_writeback(self) -> (r: bool)
        returns
            (match self {
                AddrMode::Immediate { writeback, .. } => !(writeback is NoUpdate),
                AddrMode::Register { writeback, .. } => !(writeback is NoUpdate),
                _ => false,
            }),
    {
        match self {
            AddrMode::Immediate { writeback, .. } => !matches!(writeback, WriteBack::NoUpdate),
            AddrMode::Register { writeback, .. } => !matches!(writeback, WriteBack::NoUpdate),
            _ => false,
        }
    }
}

/// Width of a memory access, and how a narrower load fills the destination.
///
/// Sign-extension is part of the access rather than a separate opcode because
/// `LDRB`/`LDRSB`/`LDRSH` differ only here; folding it in keeps one `Ldr`
/// opcode instead of eight.
#[derive(Debug, Clone, Copy, PartialEq, Eq, Structural)]
pub struct AccessSize {
    /// Bytes touched: 1, 2, 4, 8 or 16.
    pub bytes: u8,
    /// Whether a load sign-extends into the destination register.
    pub is_signed: bool,
}

impl AccessSize {
    /// Unsigned byte.
    #[verifier::allow_in_spec]
    pub fn byte() -> (r: AccessSize)
        returns
            (AccessSize { bytes: 1, is_signed: false }),
    {
        AccessSize { bytes: 1, is_signed: false }
    }

    /// Unsigned halfword.
    #[verifier::allow_in_spec]
    pub fn halfword() -> (r: AccessSize)
        returns
            (AccessSize { bytes: 2, is_signed: false }),
    {
        AccessSize { bytes: 2, is_signed: false }
    }

    /// Unsigned word.
    #[verifier::allow_in_spec]
    pub fn word() -> (r: AccessSize)
        returns
            (AccessSize { bytes: 4, is_signed: false }),
    {
        AccessSize { bytes: 4, is_signed: false }
    }

    /// Doubleword.
    #[verifier::allow_in_spec]
    pub fn doubleword() -> (r: AccessSize)
        returns
            (AccessSize { bytes: 8, is_signed: false }),
    {
        AccessSize { bytes: 8, is_signed: false }
    }

    /// 128-bit, for `LDP`/`STP` of `Q` registers and `LDXP`/`STXP`.
    #[verifier::allow_in_spec]
    pub fn quadword() -> (r: AccessSize)
        returns
            (AccessSize { bytes: 16, is_signed: false }),
    {
        AccessSize { bytes: 16, is_signed: false }
    }

    /// `log2` of the access size, which is also the register-offset scale.
    ///
    /// Defined for the five widths an access can have.
    pub fn scale(self) -> (r: u32)
        requires
            self.bytes == 1 || self.bytes == 2 || self.bytes == 4 || self.bytes == 8
                || self.bytes == 16,
        ensures
            vstd::arithmetic::power2::pow2(r as nat) == self.bytes,
            r <= 4,
    {
        proof { vstd::arithmetic::power2::lemma2_to64(); }
        if self.bytes == 1 {
            0
        } else if self.bytes == 2 {
            1
        } else if self.bytes == 4 {
            2
        } else if self.bytes == 8 {
            3
        } else {
            4
        }
    }
}

/// Ordering an access imposes, from the acquire/release and exclusive forms.
///
/// A single vCPU gives these no runtime effect, but they are decoded rather
/// than dropped: the exclusive monitor and the acquire/release forms are part
/// of what a guest kernel relies on.
#[derive(Debug, Clone, Copy, PartialEq, Eq, Structural)]
pub struct MemoryOrdering {
    /// `LDAR`-family acquire semantics.
    pub is_acquire: bool,
    /// `STLR`-family release semantics.
    pub is_release: bool,
    /// Participates in the exclusive monitor (`LDXR`/`STXR`).
    pub is_exclusive: bool,
}

impl MemoryOrdering {
    /// A plain access with no ordering requirement.
    #[verifier::allow_in_spec]
    pub fn plain() -> (r: MemoryOrdering)
        returns
            (MemoryOrdering { is_acquire: false, is_release: false, is_exclusive: false }),
    {
        MemoryOrdering { is_acquire: false, is_release: false, is_exclusive: false }
    }
}

impl Default for MemoryOrdering {
    /// A plain access.
    fn default() -> (r: MemoryOrdering)
        ensures
            r == MemoryOrdering::plain(),
    {
        MemoryOrdering { is_acquire: false, is_release: false, is_exclusive: false }
    }
}

} // verus!
