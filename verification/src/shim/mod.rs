//! The Linux syscall shim.
//!
//! Roughly forty syscalls, so a static binary runs without a kernel. It exists
//! to exercise the CPU, so it favours directness over structure worth keeping:
//! the fd table is the host's, `munmap` reclaims nothing, and `fstat` fills in
//! the handful of fields musl actually reads.
//!
//! `clone` and `futex` are refused by name rather than merely unimplemented.
//! The shim is single-threaded by decision, not by omission, and an `ENOSYS`
//! that looked like a gap would send someone to implement them.
//!
//! Conventions, from the AArch64 Linux ABI: the number is in `x8`, arguments
//! in `x0`–`x5`, the result in `x0`, and a failure is `-errno`.
use vstd::prelude::*;

mod dispatch;
mod host;
pub mod memory_map;
pub mod number;
pub mod structs;

pub use dispatch::{answered, call, fixed_answer, is_known, low_i32, Outcome};
pub use host::{CapturingHost, Errno, HostIo, SysResult};
pub use memory_map::{ArenaLayout, MemoryMap};

use crate::decode::INSN_BYTES;
use crate::interp::fetch::offset_address;
use crate::interp::{stepped, Cpu, Memory, Stop};
use crate::reg::Gpr;
use crate::trace::TraceSink;
use crate::trap::{trap_pc, Trap};

verus! {

/// Syscall numbers reached that the shim does not implement.
///
/// Bounded and deduplicated for the same reason [`crate::trap::TrapLog`] is:
/// a guest in a retry loop must not grow this without limit.
pub const UNHANDLED_CAPACITY: usize = 32;

/// Why the guest stopped running under the shim.
#[derive(Debug, Clone, Copy, PartialEq, Eq, Structural)]
pub enum ShimExit {
    /// The guest called `exit` or `exit_group`.
    Exited(i32),
    /// The guest took a trap the shim cannot service.
    Trapped(Trap),
    /// The instruction budget ran out before the guest exited.
    BudgetExhausted,
}

/// A Linux personality for one guest process.
#[derive(Debug)]
pub struct Shim<H: HostIo> {
    /// The world outside the guest.
    pub host: H,
    /// Heap and anonymous-mapping arena.
    pub map: MemoryMap,
    /// Unimplemented syscall numbers reached, in first-seen order.
    pub unhandled: std::vec::Vec<u64>,
}

/// What a syscall's result leaves in `x0`: the value, or `-errno`.
pub open spec fn returned_value(result: SysResult) -> u64 {
    match result {
        Ok(value) => value,
        Err(error) => error.to_return_value(),
    }
}

/// Where a run of `budget` instructions from `retired` stops: `retired +
/// budget`, held at `u64::MAX`.
pub open spec fn deadline_of(retired: u64, budget: u64) -> u64 {
    if retired + budget > u64::MAX { u64::MAX } else { (retired + budget) as u64 }
}

impl<H: HostIo> Shim<H> {
    /// At most [`UNHANDLED_CAPACITY`] unhandled numbers, none twice.
    pub open spec fn well_formed(&self) -> bool {
        &&& self.unhandled@.len() <= UNHANDLED_CAPACITY
        &&& forall|i: int, j: int| 0 <= i < j < self.unhandled@.len() ==> self.unhandled@[i] != self.unhandled@[j]
    }

    /// Whether `self` is `before` with `number` recorded as unhandled: a number
    /// already held, or one past the capacity, changes nothing; any other is
    /// appended. The host and the arena are untouched.
    pub open spec fn records_unhandled(&self, before: Shim<H>, number: u64) -> bool {
        &&& self.host == before.host
        &&& self.map == before.map
        &&& self.unhandled@ == (if before.unhandled@.contains(number) || before.unhandled@.len() >= UNHANDLED_CAPACITY {
            before.unhandled@
        } else {
            before.unhandled@.push(number)
        })
    }

    /// A shim over `host` handing out memory from `layout`.
    pub fn new(host: H, layout: ArenaLayout) -> (r: Shim<H>)
        ensures
            r.well_formed(),
            r.host == host,
            r.map == MemoryMap::new_spec(layout),
            r.unhandled@ == Seq::<u64>::empty(),
    {
        Shim { host, map: MemoryMap::new(layout), unhandled: std::vec::Vec::new() }
    }

    /// Syscall numbers the guest asked for that this build does not implement.
    pub fn unhandled(&self) -> (r: std::vec::Vec<u64>)
        ensures
            r@ == self.unhandled@,
    {
        self.unhandled.clone()
    }

    /// Runs the guest, servicing supervisor calls, until it exits.
    ///
    /// The budget bounds total instructions across all resumptions, so a guest
    /// that never exits still returns control. A trap the shim cannot service
    /// ends the run. The run also ends, as if the budget ran out, once a
    /// counter the CPU keeps would pass `u64::MAX`.
    pub fn run<M: Memory, S: TraceSink>(&mut self, cpu: &mut Cpu<M, S>, budget: u64) -> (r: ShimExit)
        requires
            old(self).well_formed(),
            old(cpu).well_formed(),
        ensures
            final(self).well_formed(),
            final(cpu).well_formed(),
            old(cpu).retired() <= final(cpu).retired() <= old(cpu).retired() + budget,
            r is BudgetExhausted ==> {
                let deadline = deadline_of(old(cpu).retired(), budget);
                ||| final(cpu).retired() == deadline
                ||| !final(cpu).has_headroom((deadline - final(cpu).retired()) as nat)
            },
            r matches ShimExit::Trapped(trap) ==> {
                &&& !(trap is SupervisorCall)
                &&& trap_pc(trap) == final(cpu).registers().pc_value()
                &&& exists|before: Cpu<M, S>| #[trigger] stepped(before, *final(cpu), Err(trap))
            },
            r matches ShimExit::Exited(status) ==> {
                let number = final(cpu).regs.xs()[8];
                &&& number == number::EXIT || number == number::EXIT_GROUP
                &&& status == low_i32(final(cpu).regs.xs()[0])
            },
    {
        proof { cpu.regs.lemma_shape(); }
        // `icount` is the CPU's lifetime total, so the budget is tracked
        // against where it started rather than by subtracting it each pass.
        let deadline = cpu.icount().saturating_add(budget);
        while cpu.icount() < deadline
            invariant
                self.well_formed(),
                cpu.well_formed(),
                old(cpu).retired() <= cpu.retired(),
                cpu.retired() <= deadline,
                deadline == deadline_of(old(cpu).retired(), budget),
                deadline <= old(cpu).retired() + budget,
            decreases deadline - cpu.retired(), 2 * (u64::MAX as int) - cpu.lookups(),
        {
            let remaining = deadline - cpu.icount();
            if !cpu.can_run(remaining) {
                return ShimExit::BudgetExhausted;
            }
            let ghost retired_before = cpu.retired();
            let ghost lookups_before = cpu.lookups();
            match cpu.run(remaining) {
                Stop::BudgetExhausted => return ShimExit::BudgetExhausted,
                Stop::Trapped(Trap::SupervisorCall { pc, .. }) => {
                    match self.service(cpu) {
                        Some(status) => {
                            proof { cpu.regs.lemma_shape(); }
                            return ShimExit::Exited(status);
                        },
                        None => {},
                    }
                    cpu.regs.set_pc(pc.wrapping_add(INSN_BYTES));
                    proof { cpu.regs.lemma_shape(); }
                    assert(cpu.retired() > retired_before || cpu.lookups() > lookups_before);
                },
                Stop::Trapped(trap) => return ShimExit::Trapped(trap),
            }
        }
        ShimExit::BudgetExhausted
    }

    /// Services one supervisor call, returning an exit status if it was `exit`.
    ///
    /// PC is left on the `SVC`; advancing past it is the caller's job, because
    /// only the caller knows whether the guest is resuming. Any other call
    /// leaves its result in `x0` and touches no other register.
    pub fn service<M: Memory, S: TraceSink>(&mut self, cpu: &mut Cpu<M, S>) -> (r: Option<i32>)
        requires
            old(self).well_formed(),
        ensures
            final(self).well_formed(),
            final(cpu).trap_log == old(cpu).trap_log,
            final(cpu).icount == old(cpu).icount,
            final(cpu).cache == old(cpu).cache,
            ({
                let number = old(cpu).regs.xs()[8];
                let exiting = number == number::EXIT || number == number::EXIT_GROUP;
                &&& exiting ==> r == Some(low_i32(old(cpu).regs.xs()[0])) && final(cpu).regs == old(cpu).regs
                &&& !exiting ==> r is None && exists|value: u64| #[trigger] final(cpu).regs.written(old(cpu).regs, Gpr::X(0), value)
                &&& fixed_answer(number) matches Some(answer)
                    ==> final(cpu).regs.written(old(cpu).regs, Gpr::X(0), returned_value(answer))
                &&& !is_known(number) ==> final(cpu).regs.written(old(cpu).regs, Gpr::X(0), Errno::NoSys.to_return_value())
            }),
            exists|answering: Shim<H>, called: Cpu<M, S>, outcome: Outcome| {
                &&& #[trigger] answered(*old(self), answering, *old(cpu), called, old(cpu).regs.xs()[8], old(cpu).regs.xs().subrange(0, 6), outcome)
                &&& match outcome {
                    Outcome::Returned(reply) => {
                        &&& r is None
                        &&& *final(self) == answering
                        &&& final(cpu).regs.written(called.regs, Gpr::X(0), returned_value(reply))
                        &&& final(cpu).memory == called.memory
                    },
                    Outcome::Exited(status) => {
                        &&& r == Some(status)
                        &&& final(cpu).regs == called.regs
                        &&& final(cpu).memory == called.memory
                        &&& final(self).map == answering.map
                        &&& final(self).unhandled == answering.unhandled
                        &&& final(self).host.state() == H::exit_outcome(answering.host.state(), status)
                    },
                }
            },
    {
        proof { cpu.regs.lemma_shape(); }
        let number = cpu.regs.read_x(Gpr::X(8));
        let args: [u64; 6] = [
            cpu.regs.read_x(Gpr::X(0)),
            cpu.regs.read_x(Gpr::X(1)),
            cpu.regs.read_x(Gpr::X(2)),
            cpu.regs.read_x(Gpr::X(3)),
            cpu.regs.read_x(Gpr::X(4)),
            cpu.regs.read_x(Gpr::X(5)),
        ];
        assert(args@ =~= old(cpu).regs.xs().subrange(0, 6));

        let outcome = call(self, cpu, number, &args);
        let ghost answering = *self;
        let ghost called = *cpu;
        assert(answered(*old(self), answering, *old(cpu), called, number, args@, outcome));
        match outcome {
            Outcome::Returned(result) => {
                let value = match result {
                    Ok(value) => value,
                    Err(error) => error.to_return_value(),
                };
                cpu.regs.write_x(Gpr::X(0), value);
                None
            },
            Outcome::Exited(status) => {
                self.host.exit(status);
                Some(status)
            },
        }
    }

    /// Records a syscall number this build does not implement.
    fn record_unhandled(&mut self, number: u64)
        requires
            old(self).well_formed(),
        ensures
            final(self).well_formed(),
            final(self).records_unhandled(*old(self), number),
    {
        let mut index: usize = 0;
        while index < self.unhandled.len()
            invariant
                *self == *old(self),
                self.well_formed(),
                index <= self.unhandled@.len(),
                forall|i: int| 0 <= i < index ==> self.unhandled@[i] != number,
            decreases self.unhandled@.len() - index,
        {
            if self.unhandled[index] == number {
                assert(self.unhandled@.contains(number));
                return;
            }
            index = index + 1;
        }
        assert(!self.unhandled@.contains(number));
        if self.unhandled.len() < UNHANDLED_CAPACITY {
            self.unhandled.push(number);
        }
    }
}

/// The arena layout the harness uses: heap then mmap, above the program. The
/// heap takes the second quarter of RAM and mmap the second half.
///
/// Named here rather than in the harness because both the shim tests and the
/// benchmarks need the same one, and a mismatch would show up as an unmapped
/// address rather than as a configuration error.
pub fn default_layout(ram_base: u64, ram_bytes: u64) -> (r: ArenaLayout)
    requires
        ram_base + ram_bytes <= u64::MAX,
    ensures
        r == (ArenaLayout {
            heap_base: (ram_base + ram_bytes / 4) as u64,
            heap_limit: (ram_base + ram_bytes / 2) as u64,
            mmap_base: (ram_base + ram_bytes / 2) as u64,
            mmap_limit: (ram_base + ram_bytes) as u64,
        }),
{
    let heap_base = ram_base + ram_bytes / 4;
    let mmap_base = ram_base + ram_bytes / 2;
    ArenaLayout { heap_base, heap_limit: mmap_base, mmap_base, mmap_limit: ram_base + ram_bytes }
}

} // verus!
