//! The hook the machine loop calls, and the events it reports.
//!
//! The required call ordering is: one [`TraceSink::on_marker`] with
//! [`MarkerKind::TraceStart`] before the first block, [`TraceSink::on_block`]
//! per retired block in execution order, [`TraceSink::on_exception`] between
//! the block that faulted and the block at the vector, and exactly one
//! [`TraceSink::finish`].
use vstd::prelude::*;
use super::format::{DisconType, EndReason, MarkerKind, MAX_DELTAS_PER_BLOCK};
use crate::reg::{trace_reg_id, Vec as VecReg, NUM_GPR, VEC_COUNT};
use crate::regfile::RegFile;

verus! {

/// One register's new value, identified by its stable trace id.
///
/// Emitted only when the value changed since the previous record.
#[derive(Debug, Clone, Copy, PartialEq, Eq, Structural)]
pub struct RegDelta {
    /// Stable id, from [`crate::reg::trace_reg_id`].
    pub reg_id: u16,
    /// New value. A V register emits two deltas, low half then high.
    pub value: u64,
}

/// The first `limit` of `deltas`, or all of them when there are fewer.
pub open spec fn kept(deltas: Seq<RegDelta>, limit: nat) -> Seq<RegDelta> {
    if deltas.len() <= limit { deltas } else { deltas.take(limit as int) }
}

/// Somewhere [`deltas_between`] can append deltas.
///
/// Exists so the machine loop can diff into a fixed-size array on the hot path
/// while tests use a growable buffer.
pub trait DeltaOut {
    /// The deltas collected so far, in the order they were pushed.
    spec fn collected(&self) -> Seq<RegDelta>;

    /// How many deltas this sink keeps; pushes past that are discarded.
    spec fn limit(&self) -> nat;

    /// Drops every delta collected so far.
    fn clear(&mut self)
        ensures
            final(self).collected() == Seq::<RegDelta>::empty(),
            final(self).limit() == old(self).limit();

    /// Appends one delta, discarding it if there is no room.
    fn push(&mut self, delta: RegDelta)
        requires
            old(self).collected().len() <= old(self).limit(),
        ensures
            final(self).limit() == old(self).limit(),
            final(self).collected() == (if old(self).collected().len() < old(self).limit() {
                old(self).collected().push(delta)
            } else {
                old(self).collected()
            });
}

/// A block's deltas, in a buffer sized by the format's own limit.
///
/// [`MAX_DELTAS_PER_BLOCK`] is what a record header's `flags` byte can count,
/// so no reachable diff overflows this.
#[derive(Debug, Clone)]
pub struct DeltaBuffer {
    deltas: std::vec::Vec<RegDelta>,
}

impl DeltaBuffer {
    /// An empty buffer.
    pub fn new() -> (r: DeltaBuffer)
        ensures
            r.collected() == Seq::<RegDelta>::empty(),
            r.limit() == MAX_DELTAS_PER_BLOCK,
    {
        DeltaBuffer { deltas: std::vec::Vec::new() }
    }

    /// The deltas collected so far.
    pub fn as_slice(&self) -> (r: &[RegDelta])
        ensures
            r@ == self.collected(),
    {
        self.deltas.as_slice()
    }
}

impl DeltaOut for DeltaBuffer {
    closed spec fn collected(&self) -> Seq<RegDelta> {
        self.deltas@
    }

    open spec fn limit(&self) -> nat {
        MAX_DELTAS_PER_BLOCK as nat
    }

    fn clear(&mut self) {
        self.deltas.clear();
    }

    fn push(&mut self, delta: RegDelta) {
        if self.deltas.len() < MAX_DELTAS_PER_BLOCK {
            self.deltas.push(delta);
        }
    }
}

impl Default for DeltaBuffer {
    fn default() -> (r: DeltaBuffer)
        ensures
            r.collected() == Seq::<RegDelta>::empty(),
    {
        DeltaBuffer::new()
    }
}

/// Full architectural state at an exception entry.
///
/// Carries a borrow of the register file rather than a copy of it: the record
/// is serialised immediately and these are rare enough that the indirection
/// costs nothing.
#[derive(Debug, Clone, Copy)]
pub struct ExceptionEvent<'a> {
    /// Instructions retired before the faulting instruction, which is itself
    /// **not** counted.
    pub icount: u64,
    /// Address of the faulting or interrupted instruction.
    pub from_pc: u64,
    /// Vector entry the CPU moved to.
    pub to_pc: u64,
    /// What kind of discontinuity this was.
    pub discon: DisconType,
    /// Architectural state after the redirect.
    pub regs: &'a RegFile,
}

/// Receives execution events in the CDT ordering.
///
/// Implemented by the CDT writer and by test doubles.
pub trait TraceSink {
    /// Whether this sink records anything.
    ///
    /// The machine loop guards its snapshot-and-diff work on this, so a sink
    /// that discards events costs nothing beyond the empty method bodies.
    fn enabled(&self) -> bool;

    /// A synchronisation point or annotation.
    fn on_marker(&mut self, kind: MarkerKind, icount: u64, value: u64);

    /// Whether `after` is what `before` becomes on taking the block `pc`,
    /// `icount`, `deltas`.
    spec fn took_block(after: &Self, before: &Self, pc: u64, icount: u64, deltas: Seq<RegDelta>) -> bool;

    /// A basic block retired.
    ///
    /// `icount` is the count **before** this block. In the per-instruction
    /// mode every block is one instruction.
    fn on_block(&mut self, pc: u64, icount: u64, deltas: &[RegDelta])
        ensures
            Self::took_block(&*final(self), &*old(self), pc, icount, deltas@),
    ;

    /// An exception, interrupt or host call, after the CPU reached the vector.
    fn on_exception(&mut self, event: &ExceptionEvent<'_>);

    /// End of stream. Called exactly once.
    ///
    /// `icount` is the total retired. It is passed rather than inferred from
    /// the last block: a block record is written on entry, so the last one may
    /// name an instruction that trapped and never retired.
    fn finish(&mut self, reason: EndReason, icount: u64);
}

/// A sink that discards everything.
///
/// What a build without tracing uses, so the machine loop has one code path
/// rather than a switch at every call site.
#[derive(Debug, Clone, Copy, Default)]
pub struct NullSink;

impl TraceSink for NullSink {
    /// Nothing is kept, so the sink is as it was.
    open spec fn took_block(after: &Self, before: &Self, pc: u64, icount: u64, deltas: Seq<RegDelta>) -> bool {
        *after == *before
    }

    fn enabled(&self) -> (r: bool) {
        false
    }

    fn on_marker(&mut self, kind: MarkerKind, icount: u64, value: u64) {
    }

    fn on_block(&mut self, pc: u64, icount: u64, deltas: &[RegDelta]) {
    }

    fn on_exception(&mut self, event: &ExceptionEvent<'_>) {
    }

    fn finish(&mut self, reason: EndReason, icount: u64) {
    }
}

/// The delta for `reg_id` holding `value`, unless it held that value before.
pub open spec fn delta_if_changed(reg_id: u16, value: u64, before: Option<u64>) -> Seq<RegDelta> {
    if before == Some(value) {
        Seq::empty()
    } else {
        seq![RegDelta { reg_id, value }]
    }
}

/// The register file a diff starts from, if any.
pub open spec fn snapshot(previous: Option<&RegFile>) -> Option<RegFile> {
    match previous {
        Some(regs) => Some(*regs),
        None => None,
    }
}

/// The deltas of `x0` up to (not including) `x{count}`, in register order.
pub open spec fn gpr_deltas(previous: Option<RegFile>, current: RegFile, count: nat) -> Seq<RegDelta>
    decreases count,
{
    if count == 0 {
        Seq::empty()
    } else {
        let n = (count - 1) as nat;
        gpr_deltas(previous, current, n) + delta_if_changed(
            n as u16,
            current.xs()[n as int],
            match previous {
                Some(regs) => Some(regs.xs()[n as int]),
                None => None,
            },
        )
    }
}

/// The deltas of `v0` up to (not including) `v{count}`: a changed register
/// emits its low half, then its high half.
pub open spec fn vec_deltas(previous: Option<RegFile>, current: RegFile, count: nat) -> Seq<RegDelta>
    decreases count,
{
    if count == 0 {
        Seq::empty()
    } else {
        let n = (count - 1) as nat;
        let value = current.vs()[n as int];
        let unchanged = match previous {
            Some(regs) => regs.vs()[n as int] == value,
            None => false,
        };
        vec_deltas(previous, current, n) + (if unchanged {
            Seq::empty()
        } else {
            seq![
                RegDelta { reg_id: (64 + 2 * n) as u16, value: (value % 0x1_0000_0000_0000_0000) as u64 },
                RegDelta { reg_id: (65 + 2 * n) as u16, value: (value / 0x1_0000_0000_0000_0000) as u64 },
            ]
        })
    }
}

/// The deltas between two snapshots, in emission order: the general-purpose
/// registers, `SP`, `PC`, `PSTATE`, `FPCR`, `FPSR`, then the vector registers.
/// With no previous snapshot every register is emitted.
pub open spec fn register_deltas(previous: Option<RegFile>, current: RegFile) -> Seq<RegDelta> {
    let before = |select: spec_fn(RegFile) -> u64| match previous {
        Some(regs) => Some(select(regs)),
        None => None,
    };
    gpr_deltas(previous, current, 31)
        + delta_if_changed(31, current.sp_value(), before(|regs: RegFile| regs.sp_value()))
        + delta_if_changed(32, current.pc_value(), before(|regs: RegFile| regs.pc_value()))
        + delta_if_changed(33, current.pstate.trace_word(), before(|regs: RegFile| regs.pstate.trace_word()))
        + delta_if_changed(34, current.fpcr, before(|regs: RegFile| regs.fpcr))
        + delta_if_changed(35, current.fpsr, before(|regs: RegFile| regs.fpsr))
        + vec_deltas(previous, current, 32)
}

/// Pushing one more delta onto what was kept of `deltas` keeps what is kept of
/// the longer sequence.
proof fn lemma_kept_push(deltas: Seq<RegDelta>, delta: RegDelta, limit: nat)
    ensures
        kept(deltas.push(delta), limit) == (if kept(deltas, limit).len() < limit {
            kept(deltas, limit).push(delta)
        } else {
            kept(deltas, limit)
        }),
{
    if deltas.len() >= limit {
        assert(deltas.push(delta).take(limit as int) =~= deltas.take(limit as int));
    }
}

/// Appends `delta_if_changed(reg_id, value, before)` to `out`.
fn push_changed<O: DeltaOut + ?Sized>(out: &mut O, reg_id: u16, value: u64, before: Option<u64>, Ghost(sent): Ghost<Seq<RegDelta>>)
    requires
        old(out).collected() == kept(sent, old(out).limit()),
    ensures
        final(out).limit() == old(out).limit(),
        final(out).collected() == kept(sent + delta_if_changed(reg_id, value, before), old(out).limit()),
{
    let changed = match before {
        Some(old_value) => old_value != value,
        None => true,
    };
    if changed {
        let delta = RegDelta { reg_id, value };
        proof { lemma_kept_push(sent, delta, out.limit()); }
        assert(sent + delta_if_changed(reg_id, value, before) =~= sent.push(delta));
        out.push(delta);
    } else {
        assert(sent + delta_if_changed(reg_id, value, before) =~= sent);
    }
}

/// Collects the deltas between two register-file snapshots.
///
/// A register is emitted only when it changed. Passing `None` for `previous`
/// emits the full set, which is what the block after an exception must do so
/// two streams cannot silently drift.
pub fn deltas_between<O: DeltaOut + ?Sized>(previous: Option<&RegFile>, current: &RegFile, out: &mut O)
    ensures
        final(out).limit() == old(out).limit(),
        final(out).collected() == kept(register_deltas(snapshot(previous), *current), old(out).limit()),
{
    let ghost prev = snapshot(previous);
    out.clear();
    proof { current.lemma_shape(); }
    assert(kept(Seq::<RegDelta>::empty(), out.limit()) =~= Seq::<RegDelta>::empty());

    let mut index: u8 = 0;
    while index < NUM_GPR as u8
        invariant
            index <= 31,
            prev == snapshot(previous),
            current.xs().len() == 31,
            out.limit() == old(out).limit(),
            out.collected() == kept(gpr_deltas(prev, *current, index as nat), out.limit()),
        decreases 31 - index,
    {
        let before = match previous {
            Some(regs) => {
                proof { regs.lemma_shape(); }
                Some(regs.x(index))
            },
            None => None,
        };
        push_changed(out, trace_reg_id::gpr(index), current.x(index), before, Ghost(gpr_deltas(prev, *current, index as nat)));
        index = index + 1;
    }

    let ghost mut sent = gpr_deltas(prev, *current, 31);
    push_changed(out, trace_reg_id::SP, current.sp(), match previous { Some(regs) => Some(regs.sp()), None => None }, Ghost(sent));
    proof { sent = sent + delta_if_changed(31, current.sp_value(), match prev { Some(regs) => Some(regs.sp_value()), None => None }); }
    push_changed(out, trace_reg_id::PC, current.pc(), match previous { Some(regs) => Some(regs.pc()), None => None }, Ghost(sent));
    proof { sent = sent + delta_if_changed(32, current.pc_value(), match prev { Some(regs) => Some(regs.pc_value()), None => None }); }
    push_changed(
        out,
        trace_reg_id::PSTATE,
        current.pstate.to_trace_word(),
        match previous { Some(regs) => Some(regs.pstate.to_trace_word()), None => None },
        Ghost(sent),
    );
    proof { sent = sent + delta_if_changed(33, current.pstate.trace_word(), match prev { Some(regs) => Some(regs.pstate.trace_word()), None => None }); }
    push_changed(out, trace_reg_id::FPCR, current.fpcr, match previous { Some(regs) => Some(regs.fpcr), None => None }, Ghost(sent));
    proof { sent = sent + delta_if_changed(34, current.fpcr, match prev { Some(regs) => Some(regs.fpcr), None => None }); }
    push_changed(out, trace_reg_id::FPSR, current.fpsr, match previous { Some(regs) => Some(regs.fpsr), None => None }, Ghost(sent));
    proof { sent = sent + delta_if_changed(35, current.fpsr, match prev { Some(regs) => Some(regs.fpsr), None => None }); }

    push_vec_deltas(previous, current, out, Ghost(sent));
    assert(register_deltas(prev, *current) =~= sent + vec_deltas(prev, *current, 32));
}

/// Appends the vector-register deltas after those already `sent`.
fn push_vec_deltas<O: DeltaOut + ?Sized>(previous: Option<&RegFile>, current: &RegFile, out: &mut O, Ghost(sent): Ghost<Seq<RegDelta>>)
    requires
        old(out).collected() == kept(sent, old(out).limit()),
    ensures
        final(out).limit() == old(out).limit(),
        final(out).collected() == kept(sent + vec_deltas(snapshot(previous), *current, 32), old(out).limit()),
{
    let ghost prev = snapshot(previous);
    proof { current.lemma_shape(); }
    assert(sent + vec_deltas(prev, *current, 0) =~= sent);
    let mut index: u8 = 0;
    while index < VEC_COUNT as u8
        invariant
            index <= 32,
            prev == snapshot(previous),
            current.vs().len() == 32,
            out.limit() == old(out).limit(),
            out.collected() == kept(sent + vec_deltas(prev, *current, index as nat), out.limit()),
        decreases 32 - index,
    {
        let reg = VecReg::new(index);
        let value = current.read_v(reg);
        let unchanged = match previous {
            Some(regs) => {
                proof { regs.lemma_shape(); }
                regs.read_v(reg) == value
            },
            None => false,
        };
        let ghost so_far = sent + vec_deltas(prev, *current, index as nat);
        if !unchanged {
            let low = RegDelta { reg_id: trace_reg_id::vec_lo(index), value: (value % 0x1_0000_0000_0000_0000) as u64 };
            let high = RegDelta { reg_id: trace_reg_id::vec_hi(index), value: (value / 0x1_0000_0000_0000_0000) as u64 };
            proof { lemma_kept_push(so_far, low, out.limit()); }
            out.push(low);
            proof { lemma_kept_push(so_far.push(low), high, out.limit()); }
            out.push(high);
            assert(sent + vec_deltas(prev, *current, (index + 1) as nat) =~= so_far.push(low).push(high));
        } else {
            assert(sent + vec_deltas(prev, *current, (index + 1) as nat) =~= so_far);
        }
        index = index + 1;
    }
}

} // verus!
