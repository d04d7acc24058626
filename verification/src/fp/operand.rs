//! The value vocabulary the FP backends share.
//!
//! Values cross the backend boundary as raw bit patterns rather than host
//! floats. A host float is not a faithful carrier for an architectural FP
//! register: moving a signalling NaN through one is permitted to quieten it,
//! and the softfloat path must see the exact input bits the guest wrote.
use vstd::prelude::*;
use super::control::FpExceptions;

verus! {

/// Rounding mode in force for an operation.
///
/// Distinct from [`crate::decode::operand::RoundMode`], which is what an
/// *encoding* names — including "ask FPCR". By the time a backend is called the
/// question is already resolved, so this enum has no such case.
#[derive(Debug, Clone, Copy, PartialEq, Eq, Structural, Default)]
pub enum FpRounding {
    /// To nearest, ties to even. `FPCR.RMode = 00`, and the reset state.
    #[default]
    Nearest,
    /// Toward positive infinity. `FPCR.RMode = 01`.
    Plus,
    /// Toward negative infinity. `FPCR.RMode = 10`.
    Minus,
    /// Toward zero. `FPCR.RMode = 11`.
    Zero,
    /// To nearest, ties away from zero. Named only by `FCVTAS`/`FCVTAU` and
    /// `FRINTA`; `FPCR.RMode` cannot select it.
    NearestAway,
    /// To nearest, ties to odd. `FCVTXN` only; `FPCR.RMode` cannot select it.
    Odd,
}

impl FpRounding {
    /// Decodes the 2-bit `FPCR.RMode` field; bits above it are ignored.
    #[verifier::allow_in_spec]
    pub fn from_rmode(rmode: u8) -> (r: FpRounding)
        returns
            (if rmode % 4 == 0 {
                FpRounding::Nearest
            } else if rmode % 4 == 1 {
                FpRounding::Plus
            } else if rmode % 4 == 2 {
                FpRounding::Minus
            } else {
                FpRounding::Zero
            }),
    {
        let field = rmode % 4;
        if field == 0 {
            FpRounding::Nearest
        } else if field == 1 {
            FpRounding::Plus
        } else if field == 2 {
            FpRounding::Minus
        } else {
            FpRounding::Zero
        }
    }
}

/// Which IEEE format a value is in.
///
/// The backends are generic over this rather than having one method per width:
/// `FADD S` and `FADD D` differ only in the format, and half precision joins
/// them for the conversion forms.
#[derive(Debug, Clone, Copy, PartialEq, Eq, PartialOrd, Ord, Structural)]
pub enum FpFormat {
    /// IEEE binary16.
    Half,
    /// IEEE binary32.
    Single,
    /// IEEE binary64.
    Double,
}

impl FpFormat {
    /// Total width in bits.
    #[verifier::allow_in_spec]
    pub fn bits(self) -> (r: u32)
        returns
            (match self {
                FpFormat::Half => 16u32,
                FpFormat::Single => 32u32,
                FpFormat::Double => 64u32,
            }),
    {
        match self {
            FpFormat::Half => 16,
            FpFormat::Single => 32,
            FpFormat::Double => 64,
        }
    }

    /// Bits in the trailing significand field.
    #[verifier::allow_in_spec]
    pub fn mantissa_bits(self) -> (r: u32)
        returns
            (match self {
                FpFormat::Half => 10u32,
                FpFormat::Single => 23u32,
                FpFormat::Double => 52u32,
            }),
    {
        match self {
            FpFormat::Half => 10,
            FpFormat::Single => 23,
            FpFormat::Double => 52,
        }
    }

    /// Bits in the biased exponent field: what the sign and the significand
    /// leave of the width.
    #[verifier::allow_in_spec]
    pub fn exponent_bits(self) -> (r: u32)
        returns
            (self.bits() - self.mantissa_bits() - 1) as u32,
    {
        self.bits() - self.mantissa_bits() - 1
    }

    /// The exponent field value shared by infinities and NaNs: every exponent
    /// bit set, `2^exponent_bits - 1`.
    #[verifier::allow_in_spec]
    pub fn max_exponent(self) -> (r: u32)
        returns
            (match self {
                FpFormat::Half => 0x1fu32,
                FpFormat::Single => 0xffu32,
                FpFormat::Double => 0x7ffu32,
            }),
    {
        match self {
            FpFormat::Half => 0x1f,
            FpFormat::Single => 0xff,
            FpFormat::Double => 0x7ff,
        }
    }

    /// Amount added to an unbiased exponent to store it,
    /// `2^(exponent_bits - 1) - 1`.
    #[verifier::allow_in_spec]
    pub fn exponent_bias(self) -> (r: i32)
        returns
            (match self {
                FpFormat::Half => 15i32,
                FpFormat::Single => 127i32,
                FpFormat::Double => 1023i32,
            }),
    {
        match self {
            FpFormat::Half => 15,
            FpFormat::Single => 127,
            FpFormat::Double => 1023,
        }
    }

    /// Mask covering every bit of a value in this format.
    #[verifier::allow_in_spec]
    pub fn mask(self) -> (r: u64)
        returns
            (match self {
                FpFormat::Half => 0xffffu64,
                FpFormat::Single => 0xffff_ffffu64,
                FpFormat::Double => 0xffff_ffff_ffff_ffffu64,
            }),
    {
        match self {
            FpFormat::Half => 0xffff,
            FpFormat::Single => 0xffff_ffff,
            FpFormat::Double => u64::MAX,
        }
    }

    /// The sign bit's position.
    #[verifier::allow_in_spec]
    pub fn sign_shift(self) -> (r: u32)
        returns
            (self.bits() - 1) as u32,
    {
        self.bits() - 1
    }

    /// The weight of the sign bit, `2^sign_shift`.
    pub open spec fn sign_weight(self) -> u64 {
        match self {
            FpFormat::Half => 0x8000u64,
            FpFormat::Single => 0x8000_0000u64,
            FpFormat::Double => 0x8000_0000_0000_0000u64,
        }
    }

    /// Mask covering the trailing significand, `2^mantissa_bits - 1`.
    #[verifier::allow_in_spec]
    pub fn mantissa_mask(self) -> (r: u64)
        returns
            (match self {
                FpFormat::Half => 0x3ffu64,
                FpFormat::Single => 0x7f_ffffu64,
                FpFormat::Double => 0xf_ffff_ffff_ffffu64,
            }),
    {
        match self {
            FpFormat::Half => 0x3ff,
            FpFormat::Single => 0x7f_ffff,
            FpFormat::Double => 0xf_ffff_ffff_ffff,
        }
    }

    /// The quiet bit — the significand's most significant bit.
    #[verifier::allow_in_spec]
    pub fn quiet_bit(self) -> (r: u64)
        returns
            (match self {
                FpFormat::Half => 0x200u64,
                FpFormat::Single => 0x40_0000u64,
                FpFormat::Double => 0x8_0000_0000_0000u64,
            }),
    {
        match self {
            FpFormat::Half => 0x200,
            FpFormat::Single => 0x40_0000,
            FpFormat::Double => 0x8_0000_0000_0000,
        }
    }

    /// Positive infinity: the all-ones exponent and a zero significand,
    /// `max_exponent << mantissa_bits`.
    #[verifier::allow_in_spec]
    pub fn infinity(self) -> (r: u64)
        returns
            (match self {
                FpFormat::Half => 0x7c00u64,
                FpFormat::Single => 0x7f80_0000u64,
                FpFormat::Double => 0x7ff0_0000_0000_0000u64,
            }),
    {
        match self {
            FpFormat::Half => 0x7c00,
            FpFormat::Single => 0x7f80_0000,
            FpFormat::Double => 0x7ff0_0000_0000_0000,
        }
    }

    /// Infinity is the all-ones exponent over a zero significand.
    pub proof fn lemma_infinity_fields(self)
        ensures
            self.infinity() == self.max_exponent() as int * (self.mantissa_mask() + 1),
            self.exponent_field(self.infinity()) == self.max_exponent(),
            self.fraction_field(self.infinity()) == 0,
    {
        match self {
            FpFormat::Half => {
                assert(0x7c00u64 / 0x400u64 == 31 && 0x7c00u64 % 0x400u64 == 0 && 31u64 % 32u64 == 31);
            },
            FpFormat::Single => {
                assert(0x7f80_0000u64 / 0x80_0000u64 == 255 && 0x7f80_0000u64 % 0x80_0000u64 == 0 && 255u64 % 256u64 == 255);
            },
            FpFormat::Double => {
                assert(0x7ff0_0000_0000_0000u64 / 0x10_0000_0000_0000u64 == 2047
                    && 0x7ff0_0000_0000_0000u64 % 0x10_0000_0000_0000u64 == 0 && 2047u64 % 2048u64 == 2047);
            },
        }
    }

    /// The default quiet NaN, which is what `FPCR.DN` forces and what an
    /// invalid operation produces from non-NaN inputs: positive infinity with
    /// the quiet bit set.
    #[verifier::allow_in_spec]
    pub fn default_nan(self) -> (r: u64)
        returns
            (self.infinity() + self.quiet_bit()) as u64,
    {
        self.infinity() + self.quiet_bit()
    }

    /// The largest finite magnitude, with a clear sign bit.
    #[verifier::allow_in_spec]
    pub fn max_finite(self) -> (r: u64)
        returns
            (self.infinity() - 1) as u64,
    {
        self.infinity() - 1
    }

    /// The biased exponent field of `bits`.
    pub open spec fn exponent_field(self, bits: u64) -> u64 {
        ((bits / (self.mantissa_mask() + 1) as u64) % (self.max_exponent() + 1) as u64) as u64
    }

    /// The trailing significand field of `bits`.
    pub open spec fn fraction_field(self, bits: u64) -> u64 {
        (bits % (self.mantissa_mask() + 1) as u64) as u64
    }

    /// A NaN: an all-ones exponent and a non-zero significand.
    pub open spec fn nan(self, bits: u64) -> bool {
        self.exponent_field(bits) == self.max_exponent() && self.fraction_field(bits) != 0
    }

    /// A signalling NaN: a NaN whose quiet bit is clear.
    pub open spec fn signalling(self, bits: u64) -> bool {
        self.nan(bits) && (bits / self.quiet_bit()) % 2 == 0
    }

    /// `bits` with a signalling NaN's quiet bit set; anything else unchanged.
    pub open spec fn quieted(self, bits: u64) -> u64 {
        if self.signalling(bits) { bits | self.quiet_bit() } else { bits }
    }

    /// Whether `bits` has the exponent and significand of a NaN: an all-ones
    /// exponent and a non-zero significand.
    pub fn is_nan(self, bits: u64) -> (r: bool)
        ensures
            r == self.nan(bits),
    {
        let exponent = (bits / (self.mantissa_mask() + 1)) % (self.max_exponent() as u64 + 1);
        exponent == self.max_exponent() as u64 && bits % (self.mantissa_mask() + 1) != 0
    }

    /// Whether `bits` is a NaN with its quiet bit clear.
    pub fn is_signalling_nan(self, bits: u64) -> (r: bool)
        ensures
            r == self.signalling(bits),
    {
        self.is_nan(bits) && (bits / self.quiet_bit()) % 2 == 0
    }

    /// Whether `bits` is an infinity: an all-ones exponent and a zero
    /// significand.
    pub fn is_infinite(self, bits: u64) -> (r: bool)
        ensures
            r == (self.exponent_field(bits) == self.max_exponent() && self.fraction_field(bits) == 0),
    {
        let exponent = (bits / (self.mantissa_mask() + 1)) % (self.max_exponent() as u64 + 1);
        exponent == self.max_exponent() as u64 && bits % (self.mantissa_mask() + 1) == 0
    }

    /// Whether `bits` is a zero of either sign: nothing set but, perhaps, the
    /// sign bit.
    pub fn is_zero(self, bits: u64) -> (r: bool)
        ensures
            r == (bits == 0 || bits == self.sign_weight()),
    {
        let sign = self.zero(true);
        bits == 0 || bits == sign
    }

    /// Whether `bits` is subnormal — a zero exponent with a non-zero
    /// significand.
    pub fn is_subnormal(self, bits: u64) -> (r: bool)
        ensures
            r == (self.exponent_field(bits) == 0 && self.fraction_field(bits) != 0),
    {
        let exponent = (bits / (self.mantissa_mask() + 1)) % (self.max_exponent() as u64 + 1);
        exponent == 0 && bits % (self.mantissa_mask() + 1) != 0
    }

    /// The sign bit of `bits`.
    pub fn is_negative(self, bits: u64) -> (r: bool)
        ensures
            r == ((bits / self.sign_weight()) % 2 == 1),
    {
        let sign = self.zero(true);
        (bits / sign) % 2 == 1
    }

    /// Turns a signalling NaN into its quiet counterpart, leaving the rest of
    /// the payload alone. Any other value passes through unchanged.
    pub fn quieten(self, bits: u64) -> (r: u64)
        ensures
            r == self.quieted(bits),
    {
        if self.is_signalling_nan(bits) {
            bits | self.quiet_bit()
        } else {
            bits
        }
    }

    /// A zero of the given sign.
    #[verifier::allow_in_spec]
    pub fn zero(self, is_negative: bool) -> (r: u64)
        returns
            (if is_negative { self.sign_weight() } else { 0u64 }),
    {
        if !is_negative {
            0
        } else {
            match self {
                FpFormat::Half => 0x8000,
                FpFormat::Single => 0x8000_0000,
                FpFormat::Double => 0x8000_0000_0000_0000,
            }
        }
    }

    /// An infinity of the given sign.
    #[verifier::allow_in_spec]
    pub fn signed_infinity(self, is_negative: bool) -> (r: u64)
        returns
            (self.infinity() + self.zero(is_negative)) as u64,
    {
        self.infinity() + self.zero(is_negative)
    }
}

/// The outcome of an FP comparison, before it becomes NZCV.
///
/// `Unordered` is a fourth case rather than a flag on the other three: IEEE
/// comparison is a partial order, and collapsing unordered into "not equal"
/// is exactly the bug that makes `FCMP` set the wrong flags for NaN operands.
#[derive(Debug, Clone, Copy, PartialEq, Eq, Structural)]
pub enum FpComparison {
    /// The first operand is smaller.
    Less,
    /// The operands are equal, including `+0.0 == -0.0`.
    Equal,
    /// The first operand is larger.
    Greater,
    /// At least one operand is a NaN.
    Unordered,
}

impl FpComparison {
    /// The NZCV value `FCMP` writes for this outcome: less is `0b1000`, equal
    /// `0b0110`, greater `0b0010`, unordered `0b0011`.
    #[verifier::allow_in_spec]
    pub fn to_nzcv(self) -> (r: u8)
        returns
            (match self {
                FpComparison::Less => 0b1000u8,
                FpComparison::Equal => 0b0110u8,
                FpComparison::Greater => 0b0010u8,
                FpComparison::Unordered => 0b0011u8,
            }),
    {
        match self {
            FpComparison::Less => 0b1000,
            FpComparison::Equal => 0b0110,
            FpComparison::Greater => 0b0010,
            FpComparison::Unordered => 0b0011,
        }
    }
}

/// A backend result: the value, and whatever exception flags producing it
/// raised.
#[derive(Debug, Clone, Copy, PartialEq, Eq, Structural)]
pub struct FpResult {
    /// The result, as raw bits in its format.
    pub bits: u64,
    /// Flags raised while computing it.
    pub raised: FpExceptions,
}

impl FpResult {
    /// A result that raised nothing.
    pub fn exact(bits: u64) -> (r: FpResult)
        ensures
            r == (FpResult { bits, raised: FpExceptions::with_flags(0) }),
    {
        FpResult { bits, raised: FpExceptions::none() }
    }

    /// A result that raised `raised`.
    #[verifier::allow_in_spec]
    pub fn raising(bits: u64, raised: FpExceptions) -> (r: FpResult)
        returns
            (FpResult { bits, raised }),
    {
        FpResult { bits, raised }
    }
}

/// Setting the quiet bit of a half-precision value keeps its exponent field,
/// leaves a non-zero fraction, and sets that bit.
proof fn lemma_quiet_bit_half()
    by (bit_vector)
    ensures
        forall|b: u64| #[trigger] ((b | 0x200) / 0x400) % 32 == (b / 0x400) % 32,
        forall|b: u64| #[trigger] ((b | 0x200) % 0x400) != 0,
        forall|b: u64| #[trigger] ((b | 0x200) / 0x200) % 2 == 1,
        forall|b: u64| #[trigger] ((b | 0x200) | 0x200) == (b | 0x200),
{
}

/// The same for single precision.
proof fn lemma_quiet_bit_single()
    by (bit_vector)
    ensures
        forall|b: u64| #[trigger] ((b | 0x40_0000) / 0x80_0000) % 256 == (b / 0x80_0000) % 256,
        forall|b: u64| #[trigger] ((b | 0x40_0000) % 0x80_0000) != 0,
        forall|b: u64| #[trigger] ((b | 0x40_0000) / 0x40_0000) % 2 == 1,
        forall|b: u64| #[trigger] ((b | 0x40_0000) | 0x40_0000) == (b | 0x40_0000),
{
}

/// The same for double precision.
proof fn lemma_quiet_bit_double()
    by (bit_vector)
    ensures
        forall|b: u64| #[trigger] ((b | 0x8_0000_0000_0000) / 0x10_0000_0000_0000) % 2048 == (b / 0x10_0000_0000_0000) % 2048,
        forall|b: u64| #[trigger] ((b | 0x8_0000_0000_0000) % 0x10_0000_0000_0000) != 0,
        forall|b: u64| #[trigger] ((b | 0x8_0000_0000_0000) / 0x8_0000_0000_0000) % 2 == 1,
        forall|b: u64| #[trigger] ((b | 0x8_0000_0000_0000) | 0x8_0000_0000_0000) == (b | 0x8_0000_0000_0000),
{
}

/// Quietening is final: its result is never a signalling NaN, so quietening
/// it again changes nothing; a signalling NaN stays a NaN of the same
/// exponent, and any other value passes through.
pub proof fn lemma_quieten_is_idempotent(format: FpFormat, bits: u64)
    ensures
        !format.signalling(format.quieted(bits)),
        format.quieted(format.quieted(bits)) == format.quieted(bits),
        format.signalling(bits) ==> format.nan(format.quieted(bits))
            && format.exponent_field(format.quieted(bits)) == format.exponent_field(bits),
{
    let q = format.quiet_bit();
    let b = bits | q;
    match format {
        FpFormat::Half => {
            lemma_quiet_bit_half();
            assert(((b) / 0x400) % 32 == (bits / 0x400) % 32);
            assert((b % 0x400) != 0);
            assert((b / 0x200) % 2 == 1);
        },
        FpFormat::Single => {
            lemma_quiet_bit_single();
            assert(((b) / 0x80_0000) % 256 == (bits / 0x80_0000) % 256);
            assert((b % 0x80_0000) != 0);
            assert((b / 0x40_0000) % 2 == 1);
        },
        FpFormat::Double => {
            lemma_quiet_bit_double();
            assert(((b) / 0x10_0000_0000_0000) % 2048 == (bits / 0x10_0000_0000_0000) % 2048);
            assert((b % 0x10_0000_0000_0000) != 0);
            assert((b / 0x8_0000_0000_0000) % 2 == 1);
        },
    }
}

} // verus!
