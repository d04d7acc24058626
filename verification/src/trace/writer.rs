//! Serialises trace events into a CDT v1 byte stream.
//!
//! Writes into an owned byte buffer that the host drains: every record is
//! length-prefixed and 8-byte aligned, so a partially drained buffer is always
//! cut at a record boundary.
use vstd::prelude::*;
use vstd::string::StringSliceAdditionalSpecFns;
use super::format::{
    cpu_feature_id, fnv1a_hash, EndReason, MarkerKind, BLOCK_PREFIX_BYTES, FEATURE_MASK, FILE_HEADER_BYTES,
    FLAG_BLOCK_DELTAS, FLAG_HAS_VREGS, FLAG_PRECISE_FP, FORMAT_VERSION, MAGIC, MAX_DELTAS_PER_BLOCK,
    PRODUCER_CORACLE, PRODUCER_NAME_BYTES, RECORD_BLOCK, RECORD_END, RECORD_EXCEPTION, RECORD_HEADER_BYTES,
    RECORD_MARKER, REG_DELTA_BYTES,
};
use super::sink::{kept, ExceptionEvent, RegDelta, TraceSink};
use crate::reg::{Vec as VecReg, NUM_GPR, VEC_COUNT};
use crate::regfile::RegFile;
use crate::interp::memory::{le_bytes, lemma_le_bytes_round_trip};

verus! {

/// System registers an exception record carries. They are written as zero:
/// `HAS_SYSREGS` is clear, because no EL1 register exists yet.
pub const NUM_SYSREG: usize = 20;

/// Instructions per block in the per-instruction mode: every divergence sits
/// at a single instruction, at roughly three times the trace size.
pub const M1_INSNS_PER_BLOCK: u16 = 1;

/// The length field of an exception record: the header, four words of event,
/// and the dense state block (31 general registers and `SP`, `PC`,
/// `PSTATE`, the system registers, `FPCR`, `FPSR`, and 32 vector registers as
/// two words each).
pub const EXCEPTION_RECORD_BYTES: usize = 1000;

/// Whether this build ran softfloat everywhere.
///
/// Differential runs set it; the native FP backend clears it and the differ
/// then applies the NaN-payload-insensitive policy.
#[derive(Debug, Clone, Copy, PartialEq, Eq, Structural)]
pub enum FpMode {
    /// Softfloat everywhere.
    Precise,
    /// Native FP while FPCR is in default mode.
    Native,
}

/// `count` zero bytes.
pub open spec fn zeros(count: nat) -> Seq<u8> {
    Seq::new(count, |i: int| 0u8)
}

/// Each word as eight little-endian bytes, in order.
pub open spec fn words_bytes(words: Seq<u64>) -> Seq<u8>
    decreases words.len(),
{
    if words.len() == 0 {
        Seq::empty()
    } else {
        words_bytes(words.drop_last()) + le_bytes(words.last() as nat, 8)
    }
}

/// The stream flags a file header carries: block deltas and vector registers
/// always, precise FP when the build ran softfloat everywhere.
pub open spec fn header_flags(fp_mode: FpMode) -> u64 {
    if fp_mode == FpMode::Precise { 11 } else { 10 }
}

/// The producer name field: the name's first 32 bytes, padded with zeroes.
pub open spec fn name_field(name: Seq<u8>) -> Seq<u8> {
    if name.len() >= 32 { name.take(32) } else { name + zeros((32 - name.len()) as nat) }
}

/// The file header: magic, version, producer, flags, the CPU feature id, the
/// producer name field and sixteen reserved zero bytes.
pub open spec fn file_header(name: Seq<u8>, fp_mode: FpMode) -> Seq<u8> {
    MAGIC@ + le_bytes(FORMAT_VERSION as nat, 4) + le_bytes(PRODUCER_CORACLE as nat, 4)
        + le_bytes(header_flags(fp_mode) as nat, 8) + le_bytes(fnv1a_hash(FEATURE_MASK.spec_bytes()) as nat, 8)
        + name_field(name) + zeros(16)
}

/// A record header: type, flags, the record's total length as two bytes, and
/// four reserved zero bytes.
pub open spec fn record_header(record: u8, flags: u8, length: nat) -> Seq<u8> {
    seq![record, flags] + le_bytes(length, 2) + zeros(4)
}

/// A marker record.
pub open spec fn marker_record(kind: MarkerKind, icount: u64, value: u64) -> Seq<u8> {
    record_header(RECORD_MARKER, 0, 32) + words_bytes(seq![icount, kind.code(), value])
}

/// One register delta: its id as two bytes, six reserved zero bytes, and the
/// value.
pub open spec fn delta_bytes(delta: RegDelta) -> Seq<u8> {
    le_bytes(delta.reg_id as nat, 2) + zeros(6) + le_bytes(delta.value as nat, 8)
}

/// Each delta's bytes, in order.
pub open spec fn deltas_bytes(deltas: Seq<RegDelta>) -> Seq<u8>
    decreases deltas.len(),
{
    if deltas.len() == 0 {
        Seq::empty()
    } else {
        deltas_bytes(deltas.drop_last()) + delta_bytes(deltas.last())
    }
}

/// A block record: its header with the delta count as flags, the block's PC
/// and instruction count, the instructions per block, six reserved bytes,
/// and at most 255 deltas.
pub open spec fn block_record(pc: u64, icount: u64, deltas: Seq<RegDelta>) -> Seq<u8> {
    let written = kept(deltas, 255);
    record_header(RECORD_BLOCK, written.len() as u8, 32 + 16 * written.len())
        + words_bytes(seq![pc, icount]) + le_bytes(M1_INSNS_PER_BLOCK as nat, 2) + zeros(6) + deltas_bytes(written)
}

/// Each vector register as its low then its high 64 bits.
pub open spec fn vectors_bytes(values: Seq<u128>) -> Seq<u8>
    decreases values.len(),
{
    if values.len() == 0 {
        Seq::empty()
    } else {
        vectors_bytes(values.drop_last()) + le_bytes(values.last() as nat % 0x1_0000_0000_0000_0000, 8)
            + le_bytes(values.last() as nat / 0x1_0000_0000_0000_0000, 8)
    }
}

/// The dense architectural state an exception record carries: the general
/// registers, `SP`, `PC`, the trace form of `PSTATE`, the system registers as
/// zeroes, `FPCR`, `FPSR`, and the vector registers.
pub open spec fn state_bytes(regs: RegFile) -> Seq<u8> {
    words_bytes(regs.xs()) + le_bytes(regs.sp_value() as nat, 8) + le_bytes(regs.pc_value() as nat, 8)
        + le_bytes(regs.pstate.trace_word() as nat, 8) + zeros(160) + le_bytes(regs.fpcr as nat, 8)
        + le_bytes(regs.fpsr as nat, 8) + vectors_bytes(regs.vs())
}

/// An exception record.
pub open spec fn exception_record(icount: u64, from_pc: u64, to_pc: u64, discon: u32, regs: RegFile) -> Seq<u8> {
    record_header(RECORD_EXCEPTION, 0, 1000) + words_bytes(seq![icount, from_pc, to_pc]) + le_bytes(discon as nat, 4)
        + zeros(4) + state_bytes(regs)
}

/// The end-of-stream record: the total retired and the reason.
pub open spec fn end_record(reason: EndReason, icount: u64) -> Seq<u8> {
    record_header(RECORD_END, 0, 24) + words_bytes(seq![icount, reason.code()])
}

/// Appends the `count` low bytes of `value`, least significant first.
fn push_le(buffer: &mut Vec<u8>, value: u64, count: usize)
    requires
        count <= 8,
    ensures
        final(buffer)@ == old(buffer)@ + le_bytes(value as nat, count as nat),
{
    let mut remaining = value;
    let mut index: usize = 0;
    while index < count
        invariant
            index <= count,
            buffer@ + le_bytes(remaining as nat, (count - index) as nat) == old(buffer)@ + le_bytes(value as nat, count as nat),
        decreases count - index,
    {
        let ghost before = buffer@;
        buffer.push((remaining % 256) as u8);
        proof {
            assert(le_bytes(remaining as nat, (count - index) as nat)
                == seq![(remaining % 256) as u8] + le_bytes((remaining / 256) as nat, (count - index - 1) as nat));
            assert(buffer@ + le_bytes((remaining / 256) as nat, (count - index - 1) as nat)
                =~= before + le_bytes(remaining as nat, (count - index) as nat));
        }
        remaining = remaining / 256;
        index = index + 1;
    }
    assert(buffer@ + le_bytes(remaining as nat, 0) =~= buffer@);
}

/// Appends `count` zero bytes.
fn push_zeros(buffer: &mut Vec<u8>, count: usize)
    ensures
        final(buffer)@ == old(buffer)@ + zeros(count as nat),
{
    let mut index: usize = 0;
    while index < count
        invariant
            index <= count,
            buffer@ =~= old(buffer)@ + zeros(index as nat),
        decreases count - index,
    {
        buffer.push(0);
        index = index + 1;
    }
}

/// Appends each word as eight little-endian bytes.
fn push_words(buffer: &mut Vec<u8>, words: &[u64])
    ensures
        final(buffer)@ == old(buffer)@ + words_bytes(words@),
{
    let mut index: usize = 0;
    while index < words.len()
        invariant
            index <= words@.len(),
            buffer@ == old(buffer)@ + words_bytes(words@.take(index as int)),
        decreases words@.len() - index,
    {
        push_le(buffer, words[index], 8);
        proof {
            assert(words@.take(index + 1).drop_last() =~= words@.take(index as int));
        }
        index = index + 1;
    }
    assert(words@.take(index as int) =~= words@);
}

/// Appends a record header.
fn push_record_header(buffer: &mut Vec<u8>, record: u8, flags: u8, length: usize)
    requires
        length < 0x1_0000,
    ensures
        final(buffer)@ == old(buffer)@ + record_header(record, flags, length as nat),
{
    buffer.push(record);
    buffer.push(flags);
    push_le(buffer, length as u64, 2);
    push_zeros(buffer, 4);
    assert(buffer@ =~= old(buffer)@ + record_header(record, flags, length as nat));
}

/// Writes CDT v1 records into a byte buffer.
#[derive(Debug)]
pub struct CdtWriter {
    buffer: Vec<u8>,
}

impl CdtWriter {
    /// The bytes written and not yet taken.
    pub closed spec fn contents(&self) -> Seq<u8> {
        self.buffer@
    }

    /// Starts a stream, writing the file header.
    ///
    /// `producer_name` is truncated to 32 bytes and NUL-padded. The stream
    /// clears `HAS_SYSREGS`: no EL1 register exists yet, and the differ then
    /// compares only the architectural core, which is the correct scope for a
    /// user-mode gate.
    pub fn new(producer_name: &str, fp_mode: FpMode) -> (r: CdtWriter)
        ensures
            r.contents() == file_header(producer_name.spec_bytes(), fp_mode),
            r.contents().len() == FILE_HEADER_BYTES,
    {
        let mut buffer: Vec<u8> = Vec::new();
        let mut flags = FLAG_BLOCK_DELTAS | FLAG_HAS_VREGS;
        if fp_mode == FpMode::Precise {
            flags = flags | FLAG_PRECISE_FP;
        }
        assert(flags == header_flags(fp_mode)) by {
            assert((8u64 | 2u64) == 10u64 && (10u64 | 1u64) == 11u64) by (bit_vector);
        }

        let magic = MAGIC;
        let mut index: usize = 0;
        while index < 8
            invariant
                index <= 8,
                magic@ == MAGIC@,
                buffer@ =~= magic@.take(index as int),
            decreases 8 - index,
        {
            buffer.push(magic[index]);
            index = index + 1;
        }
        assert(magic@.take(8) =~= MAGIC@);
        push_le(&mut buffer, FORMAT_VERSION as u64, 4);
        push_le(&mut buffer, PRODUCER_CORACLE as u64, 4);
        push_le(&mut buffer, flags, 8);
        push_le(&mut buffer, cpu_feature_id(), 8);

        let ghost before_name = buffer@;
        let source = producer_name.as_bytes();
        let length = if source.len() < PRODUCER_NAME_BYTES { source.len() } else { PRODUCER_NAME_BYTES };
        let mut index: usize = 0;
        while index < length
            invariant
                index <= length <= source@.len(),
                length <= 32,
                buffer@ =~= before_name + source@.take(index as int),
            decreases length - index,
        {
            buffer.push(source[index]);
            index = index + 1;
        }
        push_zeros(&mut buffer, PRODUCER_NAME_BYTES - length);
        assert(source@.take(length as int) + zeros((32 - length) as nat) =~= name_field(producer_name.spec_bytes()));
        push_zeros(&mut buffer, 16);
        let writer = CdtWriter { buffer };
        proof {
            lemma_le_bytes_round_trip(FORMAT_VERSION as nat, 4);
            lemma_le_bytes_round_trip(PRODUCER_CORACLE as nat, 4);
            lemma_le_bytes_round_trip(header_flags(fp_mode) as nat, 8);
            lemma_le_bytes_round_trip(fnv1a_hash(FEATURE_MASK.spec_bytes()) as nat, 8);
        }
        assert(writer.contents() =~= file_header(producer_name.spec_bytes(), fp_mode));
        writer
    }

    /// The bytes written so far.
    pub fn bytes(&self) -> (r: &[u8])
        ensures
            r@ == self.contents(),
    {
        self.buffer.as_slice()
    }

    /// Removes and returns the bytes written so far, leaving the stream open.
    ///
    /// Always cuts at a record boundary, because each record is appended whole.
    pub fn take(&mut self) -> (r: Vec<u8>)
        ensures
            r@ == old(self).contents(),
            final(self).contents() == Seq::<u8>::empty(),
    {
        let mut taken: Vec<u8> = Vec::new();
        std::mem::swap(&mut taken, &mut self.buffer);
        taken
    }
}

/// Appends the dense architectural-state block an exception record carries.
///
/// The field order is fixed by the trace format: `x[31]`, `SP`, `PC`,
/// normalised `PSTATE`, the system registers, `FPCR`, `FPSR`, then the 32 V
/// registers as `(lo, hi)` pairs.
fn push_full_state(buffer: &mut Vec<u8>, regs: &RegFile)
    ensures
        final(buffer)@ == old(buffer)@ + state_bytes(*regs),
{
    let mut index: u8 = 0;
    while index < NUM_GPR as u8
        invariant
            index <= 31,
            regs.xs().len() == 31,
            buffer@ == old(buffer)@ + words_bytes(regs.xs().take(index as int)),
        decreases 31 - index,
    {
        push_le(buffer, regs.x(index), 8);
        proof {
            assert(regs.xs().take(index + 1).drop_last() =~= regs.xs().take(index as int));
        }
        index = index + 1;
    }
    assert(regs.xs().take(31) =~= regs.xs());
    push_le(buffer, regs.sp(), 8);
    push_le(buffer, regs.pc(), 8);
    push_le(buffer, regs.pstate.to_trace_word(), 8);

    // No EL1 registers exist; HAS_SYSREGS is clear and the differ skips them.
    push_zeros(buffer, NUM_SYSREG * 8);

    push_le(buffer, regs.fpcr, 8);
    push_le(buffer, regs.fpsr, 8);

    let ghost before_vectors = buffer@;
    let mut index: u8 = 0;
    while index < VEC_COUNT as u8
        invariant
            index <= 32,
            regs.vs().len() == 32,
            buffer@ == before_vectors + vectors_bytes(regs.vs().take(index as int)),
        decreases 32 - index,
    {
        let value = regs.read_v(VecReg::new(index));
        push_le(buffer, value as u64, 8);
        push_le(buffer, (value >> 64) as u64, 8);
        proof {
            assert(regs.vs().take(index + 1).drop_last() =~= regs.vs().take(index as int));
            assert(value as u64 == value as nat % 0x1_0000_0000_0000_0000) by (bit_vector);
            assert((value >> 64) as u64 == value as nat / 0x1_0000_0000_0000_0000) by (bit_vector);
        }
        index = index + 1;
    }
    assert(regs.vs().take(32) =~= regs.vs());
    assert(buffer@ =~= old(buffer)@ + state_bytes(*regs));
}

impl TraceSink for CdtWriter {
    /// The block's record is appended.
    open spec fn took_block(after: &Self, before: &Self, pc: u64, icount: u64, deltas: Seq<RegDelta>) -> bool {
        after.contents() == before.contents() + block_record(pc, icount, deltas)
    }

    fn enabled(&self) -> (r: bool)
        ensures
            r,
    {
        true
    }

    fn on_marker(&mut self, kind: MarkerKind, icount: u64, value: u64)
        ensures
            final(self).contents() == old(self).contents() + marker_record(kind, icount, value),
    {
        push_record_header(&mut self.buffer, RECORD_MARKER, 0, RECORD_HEADER_BYTES + 24);
        let words = [icount, kind.code(), value];
        assert(words@ =~= seq![icount, kind.code(), value]);
        push_words(&mut self.buffer, &words);
        assert(self.buffer@ =~= old(self).contents() + marker_record(kind, icount, value));
    }

    fn on_block(&mut self, pc: u64, icount: u64, deltas: &[RegDelta])
        ensures
            final(self).contents() == old(self).contents() + block_record(pc, icount, deltas@),
    {
        let count = if deltas.len() < MAX_DELTAS_PER_BLOCK { deltas.len() } else { MAX_DELTAS_PER_BLOCK };
        let length = BLOCK_PREFIX_BYTES + count * REG_DELTA_BYTES;
        push_record_header(&mut self.buffer, RECORD_BLOCK, count as u8, length);
        let words = [pc, icount];
        assert(words@ =~= seq![pc, icount]);
        push_words(&mut self.buffer, &words);
        push_le(&mut self.buffer, M1_INSNS_PER_BLOCK as u64, 2);
        push_zeros(&mut self.buffer, 6);

        let ghost before_deltas = self.buffer@;
        let mut index: usize = 0;
        while index < count
            invariant
                index <= count <= deltas@.len(),
                count <= 255,
                self.buffer@ == before_deltas + deltas_bytes(deltas@.take(index as int)),
            decreases count - index,
        {
            let delta = deltas[index];
            push_le(&mut self.buffer, delta.reg_id as u64, 2);
            push_zeros(&mut self.buffer, 6);
            push_le(&mut self.buffer, delta.value, 8);
            proof {
                assert(deltas@.take(index + 1).drop_last() =~= deltas@.take(index as int));
            }
            index = index + 1;
        }
        assert(deltas@.take(count as int) =~= kept(deltas@, 255));
        assert(self.buffer@ =~= old(self).contents() + block_record(pc, icount, deltas@));
    }

    fn on_exception(&mut self, event: &ExceptionEvent<'_>)
        ensures
            final(self).contents() == old(self).contents()
                + exception_record(event.icount, event.from_pc, event.to_pc, event.discon.code(), *event.regs),
    {
        push_record_header(&mut self.buffer, RECORD_EXCEPTION, 0, EXCEPTION_RECORD_BYTES);
        let words = [event.icount, event.from_pc, event.to_pc];
        assert(words@ =~= seq![event.icount, event.from_pc, event.to_pc]);
        push_words(&mut self.buffer, &words);
        push_le(&mut self.buffer, event.discon.code() as u64, 4);
        push_zeros(&mut self.buffer, 4);
        push_full_state(&mut self.buffer, event.regs);
        assert(self.buffer@ =~= old(self).contents()
            + exception_record(event.icount, event.from_pc, event.to_pc, event.discon.code(), *event.regs));
    }

    fn finish(&mut self, reason: EndReason, icount: u64)
        ensures
            final(self).contents() == old(self).contents() + end_record(reason, icount),
    {
        push_record_header(&mut self.buffer, RECORD_END, 0, RECORD_HEADER_BYTES + 16);
        let words = [icount, reason.code()];
        assert(words@ =~= seq![icount, reason.code()]);
        push_words(&mut self.buffer, &words);
        assert(self.buffer@ =~= old(self).contents() + end_record(reason, icount));
    }
}

} // verus!
