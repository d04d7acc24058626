//! Stable register ids for the CDT trace stream.
//!
//! These are a wire contract: the QEMU plugin, the differ and this crate all
//! hardcode the same numbers, so they are never renumbered. `x31` is never
//! emitted — id 31 is `sp`, and `xzr` reads as zero by definition.
use vstd::prelude::*;

verus! {

/// `x0`. `xn` is `X0 + n` for `n` in `0..31`.
pub const X0: u16 = 0;
/// `sp`.
pub const SP: u16 = 31;
/// `pc`.
pub const PC: u16 = 32;
/// `pstate`, normalised.
pub const PSTATE: u16 = 33;
/// `fpcr`.
pub const FPCR: u16 = 34;
/// `fpsr`.
pub const FPSR: u16 = 35;
/// `v0` low half. `vn` low is `V_BASE + 2*n`, high is one past it.
pub const V_BASE: u16 = 64;
/// First EL1 system register id. User-mode streams emit none of these.
pub const SYS_BASE: u16 = 256;

/// Trace id for `xn`. `x31` is never emitted, so `n` is below 31.
pub fn gpr(n: u8) -> (r: u16)
    requires
        n < 31,
    ensures
        r == X0 + n,
{
    X0 + n as u16
}

/// Trace id for the low 64 bits of `vn`.
pub fn vec_lo(n: u8) -> (r: u16)
    requires
        n < 32,
    ensures
        r == V_BASE + 2 * n,
{
    V_BASE + 2 * n as u16
}

/// Trace id for the high 64 bits of `vn`.
pub fn vec_hi(n: u8) -> (r: u16)
    requires
        n < 32,
    ensures
        r == V_BASE + 2 * n + 1,
{
    vec_lo(n) + 1
}

} // verus!
