//! Processor state: condition flags, interrupt masks, exception level.
//!
//! The in-memory layout is deliberately not the architectural `SPSR` packing.
//! It is split into named fields because the interpreter touches NZCV on almost
//! every data-processing instruction and packing/unpacking bitfields there
//! would be the hot path. [`Pstate::to_trace_word`] produces the normalised
//! word the trace stream requires.
use vstd::prelude::*;

verus! {

/// Exception level. EL2 and EL3 do not exist on this machine.
#[derive(Debug, Clone, Copy, PartialEq, Eq, Structural)]
pub enum ExceptionLevel {
    /// Application level.
    El0,
    /// Kernel level.
    El1,
}

impl ExceptionLevel {
    /// The level's number, as `CurrentEL.EL` holds it.
    #[verifier::allow_in_spec]
    pub fn number(self) -> (r: u64)
        returns
            (match self {
                ExceptionLevel::El0 => 0u64,
                ExceptionLevel::El1 => 1u64,
            }),
    {
        match self {
            ExceptionLevel::El0 => 0,
            ExceptionLevel::El1 => 1,
        }
    }
}

impl Default for ExceptionLevel {
    /// The reset level, EL0.
    fn default() -> (r: ExceptionLevel)
        ensures
            r == ExceptionLevel::El0,
    {
        ExceptionLevel::El0
    }
}

/// Which stack pointer `SP` refers to.
#[derive(Debug, Clone, Copy, PartialEq, Eq, Structural)]
pub enum StackPointerSelect {
    /// `SP_EL0`.
    El0,
    /// `SP_ELx` for the current level.
    Elx,
}

impl StackPointerSelect {
    /// The `SPSel` bit.
    #[verifier::allow_in_spec]
    pub fn number(self) -> (r: u64)
        returns
            (match self {
                StackPointerSelect::El0 => 0u64,
                StackPointerSelect::Elx => 1u64,
            }),
    {
        match self {
            StackPointerSelect::El0 => 0,
            StackPointerSelect::Elx => 1,
        }
    }
}

impl Default for StackPointerSelect {
    /// The reset selection, `SP_EL0`.
    fn default() -> (r: StackPointerSelect)
        ensures
            r == StackPointerSelect::El0,
    {
        StackPointerSelect::El0
    }
}

/// The NZCV condition flags.
#[derive(Debug, Clone, Copy, PartialEq, Eq, Structural)]
pub struct Nzcv {
    /// Negative.
    pub n: bool,
    /// Zero.
    pub z: bool,
    /// Carry / unsigned overflow.
    pub c: bool,
    /// Signed overflow.
    pub v: bool,
}

/// The 0/1 value of a flag.
pub open spec fn bit_value(flag: bool) -> u8 {
    if flag { 1 } else { 0 }
}

/// The four flags of a 4-bit field, most significant first.
pub open spec fn nibble_bits(bits: u8) -> (bool, bool, bool, bool) {
    ((bits / 8) % 2 == 1, (bits / 4) % 2 == 1, (bits / 2) % 2 == 1, bits % 2 == 1)
}

/// A 4-bit field is the weighted sum of its four bits.
proof fn lemma_nibble_sum(bits: u8)
    ensures
        8 * ((bits / 8) % 2) + 4 * ((bits / 4) % 2) + 2 * ((bits / 2) % 2) + bits % 2 == bits % 16,
{
    assert(8 * ((bits / 8) % 2) + 4 * ((bits / 4) % 2) + 2 * ((bits / 2) % 2) + bits % 2 == bits % 16) by (bit_vector);
}

impl Nzcv {
    /// The packed field: `N` at bit 3 down to `V` at bit 0.
    pub open spec fn packed(self) -> u8 {
        (8 * bit_value(self.n) + 4 * bit_value(self.z) + 2 * bit_value(self.c) + bit_value(self.v)) as u8
    }

    /// Unpacks the four flags from a 4-bit `NZCV` field; bits above it are
    /// ignored.
    pub fn from_bits(bits: u8) -> (r: Nzcv)
        ensures
            (r.n, r.z, r.c, r.v) == nibble_bits(bits),
            r.packed() == bits % 16,
    {
        proof { lemma_nibble_sum(bits); }
        Nzcv { n: (bits / 8) % 2 == 1, z: (bits / 4) % 2 == 1, c: (bits / 2) % 2 == 1, v: bits % 2 == 1 }
    }

    /// Packs the four flags into a 4-bit `NZCV` field.
    pub fn to_bits(self) -> (r: u8)
        ensures
            r == self.packed(),
            r < 16,
            nibble_bits(r) == (self.n, self.z, self.c, self.v),
    {
        (if self.n { 8u8 } else { 0 }) + (if self.z { 4u8 } else { 0 }) + (if self.c { 2u8 } else { 0 })
            + (if self.v { 1u8 } else { 0 })
    }
}

impl Default for Nzcv {
    /// Every flag clear.
    fn default() -> (r: Nzcv)
        ensures
            r.packed() == 0,
    {
        Nzcv { n: false, z: false, c: false, v: false }
    }
}

/// The `DAIF` interrupt masks.
#[derive(Debug, Clone, Copy, PartialEq, Eq, Structural)]
pub struct Daif {
    /// Debug exception mask.
    pub d: bool,
    /// SError mask.
    pub a: bool,
    /// IRQ mask.
    pub i: bool,
    /// FIQ mask.
    pub f: bool,
}

impl Daif {
    /// The packed field: `D` at bit 3 down to `F` at bit 0.
    pub open spec fn packed(self) -> u8 {
        (8 * bit_value(self.d) + 4 * bit_value(self.a) + 2 * bit_value(self.i) + bit_value(self.f)) as u8
    }

    /// Unpacks the four masks from a 4-bit `DAIF` field; bits above it are
    /// ignored.
    pub fn from_bits(bits: u8) -> (r: Daif)
        ensures
            (r.d, r.a, r.i, r.f) == nibble_bits(bits),
            r.packed() == bits % 16,
    {
        proof { lemma_nibble_sum(bits); }
        Daif { d: (bits / 8) % 2 == 1, a: (bits / 4) % 2 == 1, i: (bits / 2) % 2 == 1, f: bits % 2 == 1 }
    }

    /// Packs the four masks into a 4-bit `DAIF` field.
    pub fn to_bits(self) -> (r: u8)
        ensures
            r == self.packed(),
            r < 16,
            nibble_bits(r) == (self.d, self.a, self.i, self.f),
    {
        (if self.d { 8u8 } else { 0 }) + (if self.a { 4u8 } else { 0 }) + (if self.i { 2u8 } else { 0 })
            + (if self.f { 1u8 } else { 0 })
    }
}

impl Default for Daif {
    /// Every mask clear.
    fn default() -> (r: Daif)
        ensures
            r.packed() == 0,
    {
        Daif { d: false, a: false, i: false, f: false }
    }
}

/// Processor state.
#[derive(Debug, Clone, Copy, PartialEq, Eq, Structural)]
pub struct Pstate {
    /// Condition flags.
    pub nzcv: Nzcv,
    /// Interrupt masks.
    pub daif: Daif,
    /// Current exception level.
    pub el: ExceptionLevel,
    /// Which stack pointer `SP` names.
    pub sp_sel: StackPointerSelect,
}

impl Pstate {
    /// The normalised trace word: NZCV at 31..28, DAIF at 9..6, `CurrentEL`
    /// at 3..2, `SPSel` at 0, every other bit zero.
    pub open spec fn trace_word(self) -> u64 {
        (self.nzcv.packed() as int * 0x1000_0000 + self.daif.packed() as int * 0x40
            + self.el.number() as int * 4 + self.sp_sel.number() as int) as u64
    }

    /// Packs into the normalised trace word.
    pub fn to_trace_word(self) -> (r: u64)
        ensures
            r == self.trace_word(),
    {
        (self.nzcv.to_bits() as u64) * 0x1000_0000 + (self.daif.to_bits() as u64) * 0x40
            + self.el.number() * 4 + self.sp_sel.number()
    }

    /// The reset state: every flag and mask clear, EL0, `SP_EL0`.
    pub fn new() -> (r: Pstate)
        ensures
            r.nzcv.packed() == 0,
            r.daif.packed() == 0,
            r.el == ExceptionLevel::El0,
            r.sp_sel == StackPointerSelect::El0,
    {
        Pstate {
            nzcv: Nzcv { n: false, z: false, c: false, v: false },
            daif: Daif { d: false, a: false, i: false, f: false },
            el: ExceptionLevel::El0,
            sp_sel: StackPointerSelect::El0,
        }
    }
}

impl Default for Pstate {
    /// The reset state.
    fn default() -> (r: Pstate)
        ensures
            r.nzcv.packed() == 0,
            r.daif.packed() == 0,
            r.el == ExceptionLevel::El0,
            r.sp_sel == StackPointerSelect::El0,
    {
        Pstate::new()
    }
}

/// Packing a flag field and unpacking it again gives back the same flags, and
/// unpacking then packing gives back the low four bits.
pub proof fn lemma_flags_round_trip(flags: Nzcv, masks: Daif, bits: u8)
    ensures
        nibble_bits(flags.packed()) == (flags.n, flags.z, flags.c, flags.v),
        nibble_bits(masks.packed()) == (masks.d, masks.a, masks.i, masks.f),
        ({
            let (n, z, c, v) = nibble_bits(bits);
            (Nzcv { n, z, c, v }).packed() == bits % 16
        }),
{
    lemma_nibble_sum(bits);
    let p = flags.packed();
    let q = masks.packed();
    assert(p < 16 && q < 16);
    assert(nibble_bits(p) == (flags.n, flags.z, flags.c, flags.v)) by {
        assert(p == 8 * bit_value(flags.n) + 4 * bit_value(flags.z) + 2 * bit_value(flags.c) + bit_value(flags.v));
    }
    assert(nibble_bits(q) == (masks.d, masks.a, masks.i, masks.f)) by {
        assert(q == 8 * bit_value(masks.d) + 4 * bit_value(masks.a) + 2 * bit_value(masks.i) + bit_value(masks.f));
    }
}

/// The trace word occupies only NZCV, DAIF, `CurrentEL` and `SPSel`: every
/// field reads back from its own position.
pub proof fn lemma_trace_word_fields(state: Pstate)
    ensures
        (state.trace_word() / 0x1000_0000) % 16 == state.nzcv.packed(),
        (state.trace_word() / 0x40) % 16 == state.daif.packed(),
        (state.trace_word() / 4) % 4 == state.el.number(),
        state.trace_word() % 2 == state.sp_sel.number(),
        state.trace_word() < 0x1_0000_0000,
{
    let a = state.nzcv.packed() as int;
    let b = state.daif.packed() as int;
    let c = state.el.number() as int;
    let d = state.sp_sel.number() as int;
    assert(a < 16 && b < 16 && c < 2 && d < 2);
    let w = a * 0x1000_0000 + b * 0x40 + c * 4 + d;
    assert(w == state.trace_word());
    assert((w / 0x1000_0000) % 16 == a && (w / 0x40) % 16 == b && (w / 4) % 4 == c && w % 2 == d && w < 0x1_0000_0000) by (nonlinear_arith)
        requires
            0 <= a < 16,
            0 <= b < 16,
            0 <= c < 2,
            0 <= d < 2,
            w == a * 0x1000_0000 + b * 0x40 + c * 4 + d;
}

} // verus!
