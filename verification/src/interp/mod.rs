//! The interpreter loop.
//!
//! Structure, in the order the hot path runs:
//!
//! 1. Fetch a 32-bit word at PC.
//! 2. Look it up in the decoded-instruction cache, decoding on a miss, which
//!    keeps decode off the hot path once a loop is warm.
//! 3. Dispatch on [`crate::decode::Op`] in one `match`, destructuring the
//!    [`crate::decode::Form`] the opcode expects inside its arm.
//! 4. Advance PC, unless the arm set it.
//!
//! An opcode this build does not implement raises
//! [`crate::trap::Trap::UndefinedInstruction`] and is recorded in the
//! [`crate::trap::TrapLog`]. Reaching one is never a panic, whatever word is
//! fetched.
use vstd::prelude::*;

pub mod cache;
mod dispatch;
pub mod fetch;
pub mod flags;
pub mod memory;

pub use cache::{DecodeCache, DECODE_CACHE_ENTRIES};
pub use dispatch::{execute, executed};
pub use memory::{AccessFault, FlatMemory, Memory};

use crate::decode::{spec_decode, INSN_BYTES};
use crate::regfile::RegFile;
use crate::trace::{NullSink, RegDelta, TraceSink};
use crate::trap::{trap_pc, Trap, TrapLog};
use memory::little_endian;
use fetch::offset_address;

verus! {

/// Why [`Cpu::run`] stopped.
#[derive(Debug, Clone, Copy, PartialEq, Eq, Structural)]
pub enum Stop {
    /// The instruction budget was exhausted. Re-entering resumes.
    BudgetExhausted,
    /// A trap the host must service. PC still points at the trapping
    /// instruction, so a handler that services it advances PC itself.
    Trapped(Trap),
}

/// Whether an instruction set PC itself.
#[derive(Debug, Clone, Copy, PartialEq, Eq, Structural)]
pub enum Flow {
    /// PC advances to the next instruction.
    Next,
    /// The arm already wrote PC.
    Branched,
}

/// A single vCPU: architectural state, its memory, and the loop over both.
///
/// Generic over [`Memory`] rather than holding a trait object: the load and
/// store arms are the hot path and an indirect call per access is measurable.
/// The trace sink is a type parameter for the same reason — a build without
/// tracing monomorphises [`NullSink`]'s empty bodies away entirely.
#[derive(Debug)]
pub struct Cpu<M: Memory, S: TraceSink = NullSink> {
    /// Architectural register file.
    pub regs: RegFile,
    /// Guest memory.
    pub memory: M,
    /// Unimplemented encodings reached so far.
    pub trap_log: TrapLog,
    /// Trace sink.
    pub sink: S,
    /// Decoded-instruction cache.
    pub cache: DecodeCache,
    /// Instructions retired so far.
    pub icount: u64,
}

/// One [`Cpu::step`] from `before` to `after`, answering `r`. A fetch outside
/// memory is an instruction abort that changes nothing; otherwise the decoded
/// word at PC runs as [`executed`] says. An instruction that retires adds one
/// to the count and reports one block, at PC with the count before it and no
/// deltas, to the sink; a trap retires nothing, reports nothing, names the PC
/// left behind and, for an undefined instruction, is logged. Every fetch is
/// one decode-cache lookup.
pub open spec fn stepped<M: Memory, S: TraceSink>(before: Cpu<M, S>, after: Cpu<M, S>, r: Result<(), Trap>) -> bool {
    let pc = before.registers().pc_value();
    &&& {
                let pc = before.registers().pc_value();
                if !before.guest_memory().covers(pc, 4) {
                    &&& r == Err::<(), Trap>(Trap::InstructionAbort { pc })
                    &&& after.registers() == before.registers()
                    &&& after.guest_memory() == before.guest_memory()
                    &&& after.traps() == before.traps()
                    &&& after.retired() == before.retired()
                } else {
                    let insn = spec_decode(word_at(before.guest_memory(), pc));
                    let next_pc = offset_address(pc, INSN_BYTES as int);
                    exists|outcome: Result<Flow, Trap>| {
                        &&& #[trigger] executed(
                            before.registers(),
                            after.registers(),
                            before.guest_memory(),
                            after.guest_memory(),
                            insn,
                            pc,
                            next_pc,
                            outcome,
                        )
                        &&& match outcome {
                            Ok(_) => {
                                &&& r == Ok::<(), Trap>(())
                                &&& after.retired() == before.retired() + 1
                                &&& after.traps() == before.traps()
                            },
                            Err(trap) => {
                                &&& r == Err::<(), Trap>(trap)
                                &&& after.retired() == before.retired()
                                &&& match trap {
                                    Trap::UndefinedInstruction { encoding, .. } => after.traps().records(before.traps(), encoding),
                                    _ => after.traps() == before.traps(),
                                }
                            },
                        }
                    }
                }
            }
    &&& r is Ok ==> after.retired() == before.retired() + 1
        && S::took_block(&after.sink, &before.sink, pc, before.retired(), Seq::<RegDelta>::empty())
    &&& r is Err ==> after.retired() == before.retired() && after.sink == before.sink
    &&& r matches Err(trap) ==> trap_pc(trap) == after.registers().pc_value()
    &&& after.lookups() == before.lookups() + (if before.guest_memory().covers(pc, 4) { 1int } else { 0 })
}

/// Whether `trail` runs from `before` to `after` by successful steps: each
/// state is one [`Cpu::step`] answering `Ok` from the one before it.
pub open spec fn is_trail<M: Memory, S: TraceSink>(trail: Seq<Cpu<M, S>>, before: Cpu<M, S>, after: Cpu<M, S>) -> bool {
    &&& trail.len() >= 1
    &&& trail[0] == before
    &&& trail.last() == after
    &&& forall|i: int| 0 <= i < trail.len() - 1 ==> #[trigger] stepped(trail[i], trail[i + 1], Ok(()))
}

/// `count` successful steps lead from `before` to `after`.
pub open spec fn stepped_ok<M: Memory, S: TraceSink>(before: Cpu<M, S>, after: Cpu<M, S>, count: nat) -> bool {
    exists|trail: Seq<Cpu<M, S>>| #[trigger] is_trail(trail, before, after) && trail.len() == count + 1
}

/// The word at `pc`, little-endian, as `memory` holds it.
pub open spec fn word_at<M: Memory>(memory: M, pc: u64) -> u32 {
    little_endian(Seq::new(4, |i: int| memory.byte_at(pc + i))) as u32
}

impl<M: Memory> Cpu<M, NullSink> {
    /// A CPU over `memory` with every register zeroed and tracing discarded.
    pub fn new(memory: M) -> (r: Cpu<M, NullSink>)
        ensures
            r.well_formed(),
            r.registers().is_reset(),
            r.guest_memory() == memory,
            r.retired() == 0,
            r.decodes() == 0,
            r.traps().recorded().len() == 0,
            forall|steps: nat| steps <= u64::MAX ==> #[trigger] r.has_headroom(steps),
    {
        Self::with_sink(memory, NullSink)
    }
}

impl<M: Memory, S: TraceSink> Cpu<M, S> {
    /// The architectural registers.
    pub open spec fn registers(&self) -> RegFile {
        self.regs
    }

    /// The guest memory.
    pub open spec fn guest_memory(&self) -> M {
        self.memory
    }

    /// The trap log.
    pub open spec fn traps(&self) -> TrapLog {
        self.trap_log
    }

    /// The trace sink.
    pub open spec fn trace_sink(&self) -> S {
        self.sink
    }

    /// The cache and the trap log each keep their invariant.
    pub open spec fn well_formed(&self) -> bool {
        self.cache.well_formed() && self.trap_log.well_formed()
    }

    /// Instructions retired so far.
    pub open spec fn retired(&self) -> u64 {
        self.icount
    }

    /// Instructions decoded rather than served from the cache so far.
    pub open spec fn decodes(&self) -> u64 {
        self.cache.miss_count()
    }

    /// Decode-cache lookups so far: hits and misses together. Every fetched
    /// instruction is one.
    pub open spec fn lookups(&self) -> int {
        self.cache.hit_count() + self.cache.miss_count()
    }

    /// Whether every counter can take `steps` more increments without passing
    /// `u64::MAX`.
    pub open spec fn has_headroom(&self, steps: nat) -> bool {
        &&& self.icount + steps <= u64::MAX
        &&& self.cache.hit_count() + steps <= u64::MAX
        &&& self.cache.miss_count() + steps <= u64::MAX
        &&& self.trap_log.total_count() + steps <= u64::MAX
    }

    /// Only the registers and memory differ from `old`.
    pub open spec fn same_apart_from_machine(&self, old: Cpu<M, S>) -> bool {
        &&& self.trap_log == old.trap_log
        &&& self.sink == old.sink
        &&& self.cache == old.cache
        &&& self.icount == old.icount
    }

    /// A CPU over `memory` reporting execution to `sink`.
    pub fn with_sink(memory: M, sink: S) -> (r: Cpu<M, S>)
        ensures
            r.well_formed(),
            r.registers().is_reset(),
            r.guest_memory() == memory,
            r.trace_sink() == sink,
            r.retired() == 0,
            r.decodes() == 0,
            r.traps().recorded().len() == 0,
            forall|steps: nat| steps <= u64::MAX ==> #[trigger] r.has_headroom(steps),
    {
        Cpu {
            regs: RegFile::new(),
            memory,
            trap_log: TrapLog::new(),
            sink,
            cache: DecodeCache::new(),
            icount: 0,
        }
    }

    /// Whether every counter the loop keeps can take `steps` more steps: a
    /// machine limit a caller checks before [`Cpu::run`].
    pub fn can_run(&self, steps: u64) -> (r: bool)
        ensures
            r == self.has_headroom(steps as nat),
    {
        steps <= u64::MAX - self.icount && steps <= u64::MAX - self.cache.hits()
            && steps <= u64::MAX - self.cache.misses() && steps <= u64::MAX - self.trap_log.total_encounters()
    }

    /// Instructions retired since this CPU was created.
    pub fn icount(&self) -> (r: u64)
        ensures
            r == self.retired(),
    {
        self.icount
    }

    /// Instructions that had to be decoded rather than served from the cache.
    ///
    /// Exposed because the decoded-instruction cache is what interpreter
    /// throughput rests on: throughput alone would not notice the cache
    /// silently missing on a fast enough machine.
    pub fn decode_count(&self) -> (r: u64)
        ensures
            r == self.decodes(),
    {
        self.cache.misses()
    }

    /// Runs until a trap or until `budget` instructions have retired.
    ///
    /// `budget` bounds the loop so the single-threaded build can return to the
    /// host, and so a guest that never traps cannot wedge it.
    pub fn run(&mut self, budget: u64) -> (r: Stop)
        requires
            old(self).well_formed(),
            old(self).has_headroom(budget as nat),
        ensures
            final(self).well_formed(),
            final(self).retired() >= old(self).retired(),
            r is BudgetExhausted ==> final(self).retired() == old(self).retired() + budget,
            r matches Stop::Trapped(trap) ==> {
                &&& final(self).retired() < old(self).retired() + budget
                &&& trap_pc(trap) == final(self).registers().pc_value()
            },
            final(self).lookups() >= old(self).lookups() + (final(self).retired() - old(self).retired()),
            r matches Stop::Trapped(Trap::SupervisorCall { .. })
                ==> final(self).lookups() > old(self).lookups() + (final(self).retired() - old(self).retired()),
            r is BudgetExhausted ==> stepped_ok(*old(self), *final(self), budget as nat),
            r matches Stop::Trapped(trap) ==> exists|mid: Cpu<M, S>|
                #[trigger] stepped_ok(*old(self), mid, (final(self).retired() - old(self).retired()) as nat)
                && stepped(mid, *final(self), Err(trap)),
    {
        let mut done: u64 = 0;
        let ghost mut trail: Seq<Cpu<M, S>> = seq![*self];
        while done < budget
            invariant
                self.lookups() >= old(self).lookups() + done,
                is_trail(trail, *old(self), *self),
                trail.len() == done + 1,
                done <= budget,
                self.well_formed(),
                self.retired() == old(self).retired() + done,
                self.has_headroom((budget - done) as nat),
            decreases budget - done,
        {
            let ghost before = *self;
            match self.step() {
                Ok(()) => {
                    proof {
                        let longer = trail.push(*self);
                        assert forall|i: int| 0 <= i < longer.len() - 1 implies #[trigger] stepped(longer[i], longer[i + 1], Ok(())) by {
                            if i < trail.len() - 1 {
                                assert(stepped(trail[i], trail[i + 1], Ok(())));
                            }
                        }
                        trail = longer;
                        assert(is_trail(trail, *old(self), *self));
                    }
                },
                Err(trap) => {
                    assert(is_trail(trail, *old(self), before));
                    assert(self.retired() - old(self).retired() == done);
                    assert(stepped_ok(*old(self), before, (self.retired() - old(self).retired()) as nat)
                        && stepped(before, *self, Err(trap)));
                    return Stop::Trapped(trap);
                },
            }
            assert(self.has_headroom((budget - done - 1) as nat));
            done = done + 1;
        }
        assert(is_trail(trail, *old(self), *self));
        Stop::BudgetExhausted
    }

    /// Executes exactly one instruction.
    ///
    /// The word at PC is fetched, decoded (through the cache) and executed as
    /// [`executed`] describes. An instruction that falls through advances PC by
    /// four; one that branches leaves PC where it went. A trap leaves
    /// registers and memory as they were, is recorded in the trap log, and
    /// retires nothing; a fetch outside memory is an instruction abort.
    pub fn step(&mut self) -> (r: Result<(), Trap>)
        requires
            old(self).well_formed(),
            old(self).has_headroom(1),
        ensures
            final(self).well_formed(),
            stepped(*old(self), *final(self), r),
            forall|steps: nat| old(self).has_headroom(steps + 1) ==> #[trigger] final(self).has_headroom(steps),
    {
        let pc = self.regs.pc();
        let encoding = match self.fetch(pc) {
            Ok(encoding) => encoding,
            Err(trap) => return Err(trap),
        };
        let insn = self.cache.decoded(pc, encoding);
        let ghost next_pc = offset_address(pc, INSN_BYTES as int);
        assert(insn == spec_decode(word_at(old(self).guest_memory(), pc)));

        let outcome = dispatch::execute(self, &insn, pc);
        let ghost mid = self.regs;
        match outcome {
            Ok(flow) => {
                assert(pc.wrapping_add(INSN_BYTES) == offset_address(pc, INSN_BYTES as int));
                match flow {
                    Flow::Next => self.regs.set_pc(pc.wrapping_add(INSN_BYTES)),
                    Flow::Branched => {},
                }
                proof {
                    dispatch::lemma_fall_through_target(old(self).registers(), mid, self.regs, old(self).guest_memory(), self.memory, insn, pc, outcome);
                }
            },
            Err(trap) => {
                proof {
                    dispatch::lemma_trap_changes_nothing(old(self).registers(), self.regs, old(self).guest_memory(), self.memory, insn, pc, pc, trap);
                    dispatch::lemma_fall_through_target(old(self).registers(), mid, self.regs, old(self).guest_memory(), self.memory, insn, pc, outcome);
                }
                self.trap_log.record_trap(trap);
                assert(executed(old(self).registers(), self.registers(), old(self).guest_memory(), self.guest_memory(), insn, pc, next_pc, outcome));
                return Err(trap);
            },
        }

        let ghost sink_before = self.sink;
        assert(sink_before == old(self).sink);
        let no_deltas: [RegDelta; 0] = [];
        assert(no_deltas@ =~= Seq::<RegDelta>::empty());
        self.sink.on_block(pc, self.icount, &no_deltas);
        assert(S::took_block(&self.sink, &old(self).sink, pc, old(self).retired(), Seq::<RegDelta>::empty()));
        self.icount = self.icount + 1;
        assert(executed(old(self).registers(), self.registers(), old(self).guest_memory(), self.guest_memory(), insn, pc, next_pc, outcome));
        Ok(())
    }

    /// The word at `pc`, or the instruction abort fetching it raises.
    fn fetch(&self, pc: u64) -> (r: Result<u32, Trap>)
        ensures
            r is Ok <==> self.memory.covers(pc, 4),
            r matches Ok(word) ==> word == word_at(self.memory, pc),
            r is Err ==> r == Err::<u32, Trap>(Trap::InstructionAbort { pc }),
    {
        match self.memory.read_uint(pc, 4) {
            Ok(word) => {
                proof {
                    memory::lemma_little_endian_bound(Seq::new(4, |i: int| self.memory.byte_at(pc + i)));
                    memory::lemma_byte_weight_eight();
                }
                Ok(word as u32)
            },
            Err(_) => Err(Trap::InstructionAbort { pc }),
        }
    }
}

} // verus!
