//! Traps, and the log that turns an unimplemented opcode into a work item.
//!
//! Reaching an encoding this build does not implement is a recorded,
//! recoverable event, never a panic.
//!
//! The log distinguishes nothing about *why* an encoding was unclaimed — an
//! architecturally unallocated word and a NEON opcode nobody has written yet
//! both land here. The guest cannot tell them apart either; both take an
//! undefined-instruction exception. The distinction that matters is for the
//! coverage report, and it is made by looking at the recorded encodings
//! afterwards.
use vstd::prelude::*;
use crate::decode::{EncodingGroup, Instruction, Op};

verus! {

/// A trap the CPU raises to its host.
#[derive(Debug, Clone, Copy, PartialEq, Eq, Structural)]
pub enum Trap {
    /// An encoding this build does not implement, or one the architecture
    /// leaves unallocated. The guest sees an undefined-instruction exception.
    UndefinedInstruction {
        /// PC of the offending instruction.
        pc: u64,
        /// The 32-bit encoding.
        encoding: u32,
    },
    /// `SVC` — a supervisor call, which the syscall shim handles.
    SupervisorCall {
        /// PC of the `SVC`.
        pc: u64,
        /// The 16-bit immediate.
        imm: u16,
    },
    /// A software breakpoint (`BRK`).
    Breakpoint {
        /// PC of the `BRK`.
        pc: u64,
        /// The 16-bit immediate.
        imm: u16,
    },
    /// A memory access that could not be completed.
    DataAbort {
        /// PC of the faulting instruction.
        pc: u64,
        /// Virtual address the access targeted.
        address: u64,
        /// Whether the access was a write.
        is_write: bool,
    },
    /// An instruction fetch that could not be completed.
    InstructionAbort {
        /// Virtual address that could not be fetched.
        pc: u64,
    },
}

/// The PC a trap names.
pub open spec fn trap_pc(trap: Trap) -> u64 {
    match trap {
        Trap::UndefinedInstruction { pc, .. } => pc,
        Trap::SupervisorCall { pc, .. } => pc,
        Trap::Breakpoint { pc, .. } => pc,
        Trap::DataAbort { pc, .. } => pc,
        Trap::InstructionAbort { pc } => pc,
    }
}

impl Trap {
    /// The trap an unimplemented or unallocated instruction raises.
    #[verifier::allow_in_spec]
    pub fn undefined(pc: u64, insn: &Instruction) -> (r: Trap)
        returns
            (Trap::UndefinedInstruction { pc, encoding: insn.encoding }),
    {
        Trap::UndefinedInstruction { pc, encoding: insn.encoding }
    }
}

/// Distinct encodings the log remembers before it stops recording new ones.
///
/// A bound rather than a growable buffer because a fuzz corpus of random
/// words would otherwise grow the log without limit.
pub const TRAP_LOG_CAPACITY: usize = 256;

/// One distinct unimplemented encoding and how often it was reached.
#[derive(Debug, Clone, Copy, PartialEq, Eq, Structural)]
pub struct TrapLogEntry {
    /// The 32-bit encoding.
    pub encoding: u32,
    /// Top-level group it decodes into, which names the decoder that owes an
    /// implementation.
    pub group: EncodingGroup,
    /// Times this encoding has been reached.
    pub count: u64,
}

/// The sum of the counts of `entries`.
pub open spec fn total_count(entries: Seq<TrapLogEntry>) -> int
    decreases entries.len(),
{
    if entries.len() == 0 {
        0
    } else {
        total_count(entries.drop_last()) + entries.last().count
    }
}

/// Changing one entry's count changes the sum by the difference.
pub proof fn lemma_total_count_update(entries: Seq<TrapLogEntry>, index: int, entry: TrapLogEntry)
    requires
        0 <= index < entries.len(),
    ensures
        total_count(entries.update(index, entry)) == total_count(entries) - entries[index].count + entry.count,
    decreases entries.len(),
{
    let updated = entries.update(index, entry);
    if index < entries.len() - 1 {
        lemma_total_count_update(entries.drop_last(), index, entry);
        assert(updated.drop_last() =~= entries.drop_last().update(index, entry));
    } else {
        assert(updated.drop_last() =~= entries.drop_last());
    }
}

/// Records which encodings this build failed to implement.
///
/// Deduplicated by encoding: a `memcpy` loop hitting one unimplemented NEON
/// opcode a million times produces one entry with a count, not a million lines.
#[derive(Debug, Clone)]
pub struct TrapLog {
    entries: std::vec::Vec<TrapLogEntry>,
    dropped: u64,
    total: u64,
}

impl TrapLog {
    /// The distinct encodings recorded, in first-seen order.
    pub closed spec fn recorded(&self) -> Seq<TrapLogEntry> {
        self.entries@
    }

    /// Encounters with distinct encodings the log had no room for.
    pub closed spec fn dropped_count(&self) -> u64 {
        self.dropped
    }

    /// Total unimplemented-encoding encounters, including those past capacity.
    pub closed spec fn total_count(&self) -> u64 {
        self.total
    }

    /// The log's invariant: at most [`TRAP_LOG_CAPACITY`] entries, no encoding
    /// twice, each entry filed under its own group and reached at least once,
    /// and every encounter accounted for — the counts and the dropped
    /// encounters add up to the total.
    pub open spec fn well_formed(&self) -> bool {
        let entries = self.recorded();
        &&& entries.len() <= TRAP_LOG_CAPACITY
        &&& forall|i: int, j: int| 0 <= i < j < entries.len() ==> entries[i].encoding != entries[j].encoding
        &&& forall|i: int| 0 <= i < entries.len() ==> {
            &&& #[trigger] entries[i].group == EncodingGroup::of(entries[i].encoding)
            &&& entries[i].count >= 1
        }
        &&& total_count(entries) + self.dropped_count() == self.total_count()
    }

    /// Whether `encoding` has an entry.
    pub open spec fn holds(&self, encoding: u32) -> bool {
        exists|i: int| 0 <= i < self.recorded().len() && #[trigger] self.recorded()[i].encoding == encoding
    }

    /// Whether `self` is `before` after one encounter with `encoding`: an
    /// entry it already holds counts one more; a new one is appended while
    /// there is room and counted as dropped once there is none.
    pub open spec fn records(&self, before: TrapLog, encoding: u32) -> bool {
        &&& self.total_count() == before.total_count() + 1
        &&& before.holds(encoding) ==> {
            let i = choose|i: int| 0 <= i < before.recorded().len()
                && #[trigger] before.recorded()[i].encoding == encoding;
            &&& self.recorded() == before.recorded().update(
                i,
                TrapLogEntry { count: (before.recorded()[i].count + 1) as u64, ..before.recorded()[i] },
            )
            &&& self.dropped_count() == before.dropped_count()
        }
        &&& !before.holds(encoding) && before.recorded().len() == TRAP_LOG_CAPACITY ==> {
            &&& self.recorded() == before.recorded()
            &&& self.dropped_count() == before.dropped_count() + 1
        }
        &&& !before.holds(encoding) && before.recorded().len() < TRAP_LOG_CAPACITY ==> {
            &&& self.recorded() == before.recorded().push(
                TrapLogEntry { encoding, group: EncodingGroup::of(encoding), count: 1 },
            )
            &&& self.dropped_count() == before.dropped_count()
        }
    }

    /// An empty log.
    pub fn new() -> (r: TrapLog)
        ensures
            r.well_formed(),
            r.recorded() == Seq::<TrapLogEntry>::empty(),
            r.dropped_count() == 0,
            r.total_count() == 0,
    {
        TrapLog { entries: std::vec::Vec::new(), dropped: 0, total: 0 }
    }

    /// Records one encounter with an unimplemented encoding.
    ///
    /// Never fails and never allocates past the capacity. Once capacity is
    /// exhausted a new encoding increments the dropped count instead, so the
    /// report can say the log was truncated rather than implying coverage it
    /// does not have.
    pub fn record(&mut self, encoding: u32)
        requires
            old(self).well_formed(),
            old(self).total_count() < u64::MAX,
        ensures
            final(self).well_formed(),
            final(self).records(*old(self), encoding),
    {
        let ghost before = self.entries@;
        let found = self.find(encoding);
        self.total = self.total + 1;

        match found {
            Some(index) => {
                let entry = self.entries[index];
                proof {
                    lemma_count_at_most_total(before, index as int);
                    lemma_total_count_update(before, index as int, TrapLogEntry { count: (entry.count + 1) as u64, ..entry });
                }
                self.entries.set(index, TrapLogEntry { count: entry.count + 1, ..entry });
                proof {
                    let i = choose|i: int| 0 <= i < before.len() && #[trigger] before[i].encoding == encoding;
                    assert(before[i].encoding == before[index as int].encoding);
                    assert(i == index);
                }
            },
            None => {
                if self.entries.len() == TRAP_LOG_CAPACITY {
                    proof { lemma_total_count_nonnegative(before); }
                    self.dropped = self.dropped + 1;
                    return;
                }
                let entry = TrapLogEntry { encoding, group: EncodingGroup::of(encoding), count: 1 };
                self.entries.push(entry);
                assert(self.entries@.drop_last() =~= before);
            },
        }
    }

    /// Records the instruction behind a trap, when that trap is an undefined
    /// instruction. Other traps are not a coverage gap and are ignored.
    pub fn record_trap(&mut self, trap: Trap)
        requires
            old(self).well_formed(),
            old(self).total_count() < u64::MAX,
        ensures
            final(self).well_formed(),
            trap matches Trap::UndefinedInstruction { encoding, .. } ==> final(self).records(*old(self), encoding),
            !(trap is UndefinedInstruction) ==> *final(self) == *old(self),
    {
        if let Trap::UndefinedInstruction { encoding, .. } = trap {
            self.record(encoding);
        }
    }

    /// The distinct encodings recorded, in first-seen order.
    pub fn entries(&self) -> (r: std::vec::Vec<TrapLogEntry>)
        ensures
            r@ == self.recorded(),
    {
        self.entries.clone()
    }

    /// Total unimplemented-encoding encounters, including those past capacity.
    pub fn total_encounters(&self) -> (r: u64)
        ensures
            r == self.total_count(),
    {
        self.total
    }

    /// Encounters with distinct encodings the log had no room for.
    pub fn dropped_encodings(&self) -> (r: u64)
        ensures
            r == self.dropped_count(),
    {
        self.dropped
    }

    /// Whether anything was recorded.
    pub fn is_empty(&self) -> (r: bool)
        ensures
            r == (self.recorded().len() == 0 && self.dropped_count() == 0),
    {
        self.entries.len() == 0 && self.dropped == 0
    }

    /// The index of `encoding`'s entry, if it has one.
    fn find(&self, encoding: u32) -> (r: Option<usize>)
        requires
            self.well_formed(),
        ensures
            r matches Some(i) ==> i < self.recorded().len() && self.recorded()[i as int].encoding == encoding,
            r is None ==> !self.holds(encoding),
    {
        let mut index: usize = 0;
        while index < self.entries.len()
            invariant
                index <= self.entries@.len(),
                forall|i: int| 0 <= i < index ==> self.entries@[i].encoding != encoding,
            decreases self.entries@.len() - index,
        {
            if self.entries[index].encoding == encoding {
                return Some(index);
            }
            index = index + 1;
        }
        None
    }
}

/// No single entry counts more encounters than all entries together.
proof fn lemma_count_at_most_total(entries: Seq<TrapLogEntry>, index: int)
    requires
        0 <= index < entries.len(),
    ensures
        entries[index].count <= total_count(entries),
    decreases entries.len(),
{
    lemma_total_count_nonnegative(entries.drop_last());
    if index < entries.len() - 1 {
        lemma_count_at_most_total(entries.drop_last(), index);
    }
}

/// Counts are never negative, so neither is their sum.
proof fn lemma_total_count_nonnegative(entries: Seq<TrapLogEntry>)
    ensures
        total_count(entries) >= 0,
    decreases entries.len(),
{
    if entries.len() > 0 {
        lemma_total_count_nonnegative(entries.drop_last());
    }
}

impl Default for TrapLog {
    fn default() -> (r: TrapLog)
        ensures
            r.well_formed(),
            r.recorded() == Seq::<TrapLogEntry>::empty(),
    {
        TrapLog::new()
    }
}

/// Whether reaching this instruction is an unimplemented-opcode trap.
pub fn is_unimplemented(insn: &Instruction) -> (r: bool)
    ensures
        r == (insn.op is Unallocated),
{
    insn.op.is_unallocated()
}

} // verus!
