//! How the machine loop yields, and what the host must provide for it.
//!
//! Two shipping configurations:
//!
//! - threaded (the default): the CPU runs in a Web Worker against shared
//!   linear memory. Blocking on an idle guest is a real block
//!   (`Atomics.wait`), so the loop sleeps until a device or timer wakes it.
//! - single-threaded: Safari, or any page that cannot be cross-origin
//!   isolated. `Atomics.wait` is unavailable on the main thread, so the loop
//!   must return to the host and be re-entered.
//!
//! Both constants below derive from [`crate::IS_THREADED_BUILD`], so they cannot
//! drift apart.
use vstd::prelude::*;

verus! {

/// What the machine loop does when the guest has nothing to run.
#[derive(Debug, Clone, Copy, PartialEq, Eq, Structural)]
pub enum IdleStrategy {
    /// Block the calling thread until a device signals. Worker only.
    BlockOnAtomic,
    /// Return to the host, which re-enters the loop from a task or timer.
    YieldToHost,
}

/// The idle strategy this build was compiled for.
pub const IDLE_STRATEGY: IdleStrategy = IdleStrategy::BlockOnAtomic;

/// Whether the host page must be cross-origin isolated for this build to run.
///
/// A threaded build needs `SharedArrayBuffer`, which the browser only exposes
/// under COOP/COEP. The single-threaded build carries no such requirement,
/// which is the entire reason it exists.
pub const REQUIRES_CROSS_ORIGIN_ISOLATION: bool = crate::IS_THREADED_BUILD;

/// A build blocks exactly when it is threaded, and needs isolation exactly
/// when it is threaded.
pub proof fn lemma_blocking_follows_threading()
    ensures
        (IDLE_STRATEGY == IdleStrategy::BlockOnAtomic) == crate::IS_THREADED_BUILD,
        REQUIRES_CROSS_ORIGIN_ISOLATION == crate::IS_THREADED_BUILD,
{
}

} // verus!
