//! NZCV production and consumption.
//!
//! Split out of the dispatch because three groups need it — the flag-setting
//! data-processing forms produce it, the conditional forms consume it, and
//! exception entry saves it — and because it is the one piece of the datapath
//! where a width-dependent detail (carry out of bit 31 versus bit 63) is easy
//! to get wrong in each place separately.
use vstd::prelude::*;
use crate::decode::operand::{Cond, RegWidth};
use crate::pstate::Nzcv;

verus! {

/// The result of an add or subtract, with the flags it would set.
#[derive(Debug, Clone, Copy, PartialEq, Eq, Structural)]
pub struct FlaggedResult {
    /// The result, already masked to the operand width.
    pub value: u64,
    /// Flags this computation produces.
    pub flags: Nzcv,
}

/// The architecture's `AddWithCarry`: the operands read at `width`, their sum
/// with the carry, and the flags of that sum — `N` the sign of the result,
/// `Z` whether it is zero, `C` whether the unsigned sum does not fit, `V`
/// whether the signed sum does not.
pub open spec fn add_with_carry_spec(left: u64, right: u64, carry_in: bool, width: RegWidth) -> FlaggedResult {
    let m = width.modulus();
    let l = left as int % m;
    let r = right as int % m;
    let c: int = if carry_in { 1 } else { 0 };
    let unsigned_sum = l + r + c;
    let value = unsigned_sum % m;
    FlaggedResult {
        value: value as u64,
        flags: Nzcv {
            n: value >= width.sign_weight(),
            z: value == 0,
            c: unsigned_sum >= m,
            v: width.signed(l) + width.signed(r) + c != width.signed(value),
        },
    }
}

/// Adds `left`, `right` and `carry_in` at `width`, reporting NZCV.
///
/// Subtraction is this with `right` inverted and `carry_in` set, which is what
/// the architecture itself specifies, so there is no separate subtract here.
pub fn add_with_carry(operands: (u64, u64), carry_in: bool, width: RegWidth) -> (r: FlaggedResult)
    ensures
        r == add_with_carry_spec(operands.0, operands.1, carry_in, width),
{
    let modulus: u128 = match width {
        RegWidth::W32 => 0x1_0000_0000,
        RegWidth::X64 => 0x1_0000_0000_0000_0000,
    };
    let half: u128 = modulus / 2;
    let left = operands.0 as u128 % modulus;
    let right = operands.1 as u128 % modulus;
    let carry: u128 = if carry_in { 1 } else { 0 };

    let unsigned = left + right + carry;
    let value = unsigned % modulus;

    // The signed reading of each side, for the overflow test.
    let signed_left: i128 = if left >= half { left as i128 - modulus as i128 } else { left as i128 };
    let signed_right: i128 = if right >= half { right as i128 - modulus as i128 } else { right as i128 };
    let signed_value: i128 = if value >= half { value as i128 - modulus as i128 } else { value as i128 };

    FlaggedResult {
        value: value as u64,
        flags: Nzcv {
            n: value >= half,
            z: value == 0,
            c: unsigned >= modulus,
            v: signed_left + signed_right + carry as i128 != signed_value,
        },
    }
}

/// The flags a logical operation sets: `N` and `Z` from the result read at
/// `width`, `C` and `V` cleared.
pub open spec fn logical_flags_spec(value: u64, width: RegWidth) -> Nzcv {
    let v = value as int % width.modulus();
    Nzcv { n: v >= width.sign_weight(), z: v == 0, c: false, v: false }
}

/// Flags a logical operation sets: N and Z from the result, C and V cleared.
pub fn logical_flags(value: u64, width: RegWidth) -> (r: Nzcv)
    ensures
        r == logical_flags_spec(value, width),
{
    let modulus: u128 = match width {
        RegWidth::W32 => 0x1_0000_0000,
        RegWidth::X64 => 0x1_0000_0000_0000_0000,
    };
    let value = value as u128 % modulus;
    Nzcv { n: value >= modulus / 2, z: value == 0, c: false, v: false }
}

/// Whether `cond` holds under `flags`, per the architecture's
/// `ConditionHolds`.
#[verifier::allow_in_spec]
pub fn is_condition_met(cond: Cond, flags: Nzcv) -> (r: bool)
    returns
        (match cond {
            Cond::Eq => flags.z,
            Cond::Ne => !flags.z,
            Cond::Cs => flags.c,
            Cond::Cc => !flags.c,
            Cond::Mi => flags.n,
            Cond::Pl => !flags.n,
            Cond::Vs => flags.v,
            Cond::Vc => !flags.v,
            Cond::Hi => flags.c && !flags.z,
            Cond::Ls => !(flags.c && !flags.z),
            Cond::Ge => flags.n == flags.v,
            Cond::Lt => flags.n != flags.v,
            Cond::Gt => !flags.z && flags.n == flags.v,
            Cond::Le => !(!flags.z && flags.n == flags.v),
            Cond::Al | Cond::Nv => true,
        }),
{
    match cond {
        Cond::Eq => flags.z,
        Cond::Ne => !flags.z,
        Cond::Cs => flags.c,
        Cond::Cc => !flags.c,
        Cond::Mi => flags.n,
        Cond::Pl => !flags.n,
        Cond::Vs => flags.v,
        Cond::Vc => !flags.v,
        Cond::Hi => flags.c && !flags.z,
        Cond::Ls => !(flags.c && !flags.z),
        Cond::Ge => flags.n == flags.v,
        Cond::Lt => flags.n != flags.v,
        Cond::Gt => !flags.z && flags.n == flags.v,
        Cond::Le => !(!flags.z && flags.n == flags.v),
        Cond::Al | Cond::Nv => true,
    }
}

/// Every condition but `AL` and `NV` holds exactly when its inverse does not;
/// `AL` and `NV` hold under every flag value.
pub proof fn lemma_inverse_condition_is_complement(cond: Cond, inverse: Cond, flags: Nzcv)
    requires
        cond.code() < 14 ==> inverse.code() == (if cond.code() % 2 == 0 { cond.code() + 1 } else { cond.code() - 1 }),
        cond.code() >= 14 ==> inverse == cond,
    ensures
        cond.code() < 14 ==> is_condition_met(inverse, flags) == !is_condition_met(cond, flags),
        cond.code() >= 14 ==> is_condition_met(cond, flags),
{
}

/// `SUBS` of equal operands sets `Z` and `C` and clears `N` and `V`: a compare
/// of a value with itself reads as equal and as no borrow, at either width.
pub proof fn lemma_compare_equal(value: u64, width: RegWidth)
    ensures
        ({
            let flags = add_with_carry_spec(value, !value, true, width).flags;
            flags.z && flags.c && !flags.n && !flags.v
        }),
{
    let m = width.modulus();
    let l = value as int % m;
    let r = (!value) as int % m;
    assert(value as int + (!value) as int == 0xffff_ffff_ffff_ffff) by (bit_vector);
    assert(l + r == m - 1) by {
        assert(m == 0x1_0000_0000 || m == 0x1_0000_0000_0000_0000);
        if m == 0x1_0000_0000 {
            assert((value as int % 0x1_0000_0000) + ((!value) as int % 0x1_0000_0000) == 0xffff_ffff) by (bit_vector);
        }
    }
}

/// Subtracting sets the flags a compare reads: for any two operands at
/// either width, `AddWithCarry` of the left, the inverted right and a carry
/// in gives the difference modulo the width, and the flags say how the two
/// operands compare: `Z` exactly when they are equal, `C` exactly when the
/// left is at least the right unsigned, `N` differing from `V` exactly when
/// the left is below the right signed; so `HI` is unsigned greater and `GT`
/// signed greater.
pub proof fn lemma_subtraction_flags_compare(left: u64, right: u64, width: RegWidth)
    ensures
        ({
            let m = width.modulus();
            let (l, r) = (left as int % m, right as int % m);
            let result = add_with_carry_spec(left, !right, true, width);
            &&& result.value == (l - r) % m
            &&& result.flags.z == (l == r)
            &&& result.flags.c == (l >= r)
            &&& (result.flags.n != result.flags.v) == (width.signed(l) < width.signed(r))
            &&& is_condition_met(Cond::Hi, result.flags) == (l > r)
            &&& is_condition_met(Cond::Gt, result.flags) == (width.signed(l) > width.signed(r))
            &&& is_condition_met(Cond::Ge, result.flags) == (width.signed(l) >= width.signed(r))
            &&& is_condition_met(Cond::Cs, result.flags) == (l >= r)
        }),
{
    let m = width.modulus();
    let (l, r) = (left as int % m, right as int % m);
    assert(!right == 0xffff_ffff_ffff_ffff - right) by (bit_vector);
    let inverted = (!right) as int % m;
    assert(inverted == m - 1 - r) by {
        if width == RegWidth::W32 {
            assert((0xffff_ffff_ffff_ffff - right as int) % 0x1_0000_0000 == 0x1_0000_0000 - 1 - right as int % 0x1_0000_0000)
                by (nonlinear_arith)
                requires right >= 0, right <= 0xffff_ffff_ffff_ffff;
        }
    }
    let sum = l + inverted + 1;
    assert(sum == l - r + m);
    let value = sum % m;
    assert(value == (l - r) % m) by {
        vstd::arithmetic::div_mod::lemma_mod_add_multiples_vanish(l - r, m);
    }
    assert(0 <= l < m && 0 <= r < m);
    if l >= r {
        vstd::arithmetic::div_mod::lemma_small_mod((l - r) as nat, m as nat);
    } else {
        vstd::arithmetic::div_mod::lemma_small_mod((l - r + m) as nat, m as nat);
        assert((l - r) % m == l - r + m) by {
            vstd::arithmetic::div_mod::lemma_mod_add_multiples_vanish(l - r, m);
        }
    }
}

} // verus!
