//! AArch64 CPU core.
//!
//! Carries the build-configuration surface the host and the guest agree on,
//! the architectural register file, the A64 decoder, the interpreter and its
//! syscall shim, and the floating-point engine.
use vstd::prelude::*;

pub mod decode;
pub mod fp;
pub mod guest_memory;
pub mod interp;
pub mod pstate;
pub mod reg;
pub mod regfile;
pub mod shim;
pub mod threading;
pub mod trace;
pub mod trap;

verus! {

/// Whether this build was compiled against shared linear memory.
///
/// The single-threaded build (Safari, and any page that cannot be
/// cross-origin isolated) reports `false` and drives the machine loop on the
/// main thread instead of a worker.
pub const IS_THREADED_BUILD: bool = true;

} // verus!
