//! Laws of the CDT v1 byte layout: where each value of a record sits and
//! what the bytes there spell, read back little-endian.
use vstd::prelude::*;
use vstd::string::StringSliceAdditionalSpecFns;
use crate::interp::memory::{byte_weight, le_bytes, lemma_byte_weight_eight, lemma_le_bytes_round_trip, little_endian};
use crate::regfile::RegFile;
use super::format::{
    fnv1a_hash, EndReason, MarkerKind, FEATURE_MASK, FLAG_BLOCK_DELTAS, FLAG_HAS_VREGS, FLAG_PRECISE_FP, FORMAT_VERSION, MAGIC,
    PRODUCER_CORACLE, RECORD_BLOCK, RECORD_END, RECORD_EXCEPTION, RECORD_MARKER,
};
use super::sink::RegDelta;
use super::writer::{
    block_record, delta_bytes, deltas_bytes, end_record, exception_record, file_header, header_flags, marker_record,
    name_field, record_header, state_bytes, vectors_bytes, words_bytes, zeros, FpMode,
};

verus! {

/// The number the `count` bytes of `bytes` from `start` spell, least
/// significant first.
pub open spec fn read_le(bytes: Seq<u8>, start: int, count: int) -> nat {
    little_endian(bytes.subrange(start, start + count))
}

/// A run inside a part of a sequence is that run of the part.
proof fn lemma_run_of_part(whole: Seq<u8>, part: Seq<u8>, at: int, start: int, count: int)
    requires
        0 <= at,
        at + part.len() <= whole.len(),
        whole.subrange(at, at + part.len()) == part,
        0 <= start,
        0 <= count,
        start + count <= part.len(),
    ensures
        read_le(whole, at + start, count) == read_le(part, start, count),
{
    assert(whole.subrange(at + start, at + start + count) =~= part.subrange(start, start + count)) by {
        assert forall|k: int| 0 <= k < count implies
            #[trigger] whole.subrange(at + start, at + start + count)[k] == part.subrange(start, start + count)[k] by {
            assert(whole.subrange(at, at + part.len())[start + k] == part[start + k]);
        }
    }
}

/// `count` little-endian bytes of `value` spell it back modulo `256^count`.
proof fn lemma_le_read(value: nat, count: nat)
    ensures
        le_bytes(value, count).len() == count,
        read_le(le_bytes(value, count), 0, count as int) == value % byte_weight(count),
{
    lemma_le_bytes_round_trip(value, count);
    assert(le_bytes(value, count).subrange(0, count as int) =~= le_bytes(value, count));
}

/// Words are laid out eight bytes each, in order: the eight bytes of word
/// `i`, from offset `8 * i`, spell that word.
pub proof fn lemma_words_bytes_layout(words: Seq<u64>)
    ensures
        words_bytes(words).len() == 8 * words.len(),
        forall|i: int| 0 <= i < words.len() ==> #[trigger] read_le(words_bytes(words), 8 * i, 8) == words[i],
    decreases words.len(),
{
    if words.len() > 0 {
        let init = words.drop_last();
        let last = words.last();
        lemma_words_bytes_layout(init);
        lemma_le_read(last as nat, 8);
        lemma_byte_weight_eight();
        let front = words_bytes(init);
        let back = le_bytes(last as nat, 8);
        let whole = words_bytes(words);
        assert(whole == front + back);
        assert(whole.subrange(0, front.len() as int) =~= front);
        assert(whole.subrange(front.len() as int, front.len() as int + 8) =~= back);
        assert forall|i: int| 0 <= i < words.len() implies #[trigger] read_le(whole, 8 * i, 8) == words[i] by {
            if i < words.len() - 1 {
                lemma_run_of_part(whole, front, 0, 8 * i, 8);
                assert(init[i] == words[i]);
            } else {
                lemma_run_of_part(whole, back, front.len() as int, 0, 8);
            }
        }
    }
}

/// Vector registers are laid out sixteen bytes each, in order: the first
/// eight bytes of register `i`, from offset `16 * i`, spell its low 64 bits
/// and the next eight its high 64 bits.
pub proof fn lemma_vectors_bytes_layout(values: Seq<u128>)
    ensures
        vectors_bytes(values).len() == 16 * values.len(),
        forall|i: int| 0 <= i < values.len() ==> {
            &&& #[trigger] read_le(vectors_bytes(values), 16 * i, 8) == values[i] as nat % 0x1_0000_0000_0000_0000
            &&& read_le(vectors_bytes(values), 16 * i + 8, 8) == values[i] as nat / 0x1_0000_0000_0000_0000
        },
    decreases values.len(),
{
    if values.len() > 0 {
        let init = values.drop_last();
        let last = values.last() as nat;
        lemma_vectors_bytes_layout(init);
        let low = last % 0x1_0000_0000_0000_0000;
        let high = last / 0x1_0000_0000_0000_0000;
        lemma_le_read(low, 8);
        lemma_le_read(high, 8);
        lemma_byte_weight_eight();
        assert(high < 0x1_0000_0000_0000_0000) by (nonlinear_arith)
            requires last < 0x1_0000_0000_0000_0000_0000_0000_0000_0000, high == last / 0x1_0000_0000_0000_0000;
        let front = vectors_bytes(init);
        let lo_bytes = le_bytes(low, 8);
        let hi_bytes = le_bytes(high, 8);
        let whole = vectors_bytes(values);
        let n = front.len() as int;
        assert(whole == front + lo_bytes + hi_bytes);
        assert(whole.subrange(0, n) =~= front);
        assert(whole.subrange(n, n + 8) =~= lo_bytes);
        assert(whole.subrange(n + 8, n + 16) =~= hi_bytes);
        assert forall|i: int| 0 <= i < values.len() implies {
            &&& #[trigger] read_le(whole, 16 * i, 8) == values[i] as nat % 0x1_0000_0000_0000_0000
            &&& read_le(whole, 16 * i + 8, 8) == values[i] as nat / 0x1_0000_0000_0000_0000
        } by {
            if i < values.len() - 1 {
                lemma_run_of_part(whole, front, 0, 16 * i, 8);
                lemma_run_of_part(whole, front, 0, 16 * i + 8, 8);
                assert(init[i] == values[i]);
            } else {
                lemma_run_of_part(whole, lo_bytes, n, 0, 8);
                lemma_run_of_part(whole, hi_bytes, n + 8, 0, 8);
            }
        }
    }
}

/// An exception record's layout: it is 1000 bytes, typed as an exception
/// with its length in bytes 2..4; the instruction count and the two PCs are
/// the words at 8, 16 and 24, the discontinuity code the four bytes at 32;
/// then, from 40, the general registers eight bytes each, `SP` at 288, `PC`
/// at 296, the trace form of `PSTATE` at 304, zeroes for the system
/// registers up to 472, `FPCR` at 472, `FPSR` at 480, and from 488 each
/// vector register as sixteen bytes, its low 64 bits first and its high 64
/// bits next.
#[verifier::spinoff_prover]
#[verifier::rlimit(60)]
pub proof fn lemma_exception_record_layout(icount: u64, from_pc: u64, to_pc: u64, discon: u32, regs: RegFile)
    ensures
        ({
            let record = exception_record(icount, from_pc, to_pc, discon, regs);
            &&& record.len() == 1000
            &&& record[0] == RECORD_EXCEPTION
            &&& record[1] == 0
            &&& read_le(record, 2, 2) == 1000
            &&& read_le(record, 8, 8) == icount
            &&& read_le(record, 16, 8) == from_pc
            &&& read_le(record, 24, 8) == to_pc
            &&& read_le(record, 32, 4) == discon
            &&& forall|i: int| 0 <= i < 31 ==> #[trigger] read_le(record, 40 + 8 * i, 8) == regs.xs()[i]
            &&& read_le(record, 288, 8) == regs.sp_value()
            &&& read_le(record, 296, 8) == regs.pc_value()
            &&& read_le(record, 304, 8) == regs.pstate.trace_word()
            &&& forall|j: int| 312 <= j < 472 ==> #[trigger] record[j] == 0
            &&& read_le(record, 472, 8) == regs.fpcr
            &&& read_le(record, 480, 8) == regs.fpsr
            &&& forall|i: int| 0 <= i < 32 ==> {
                &&& #[trigger] read_le(record, 488 + 16 * i, 8) == regs.vs()[i] as nat % 0x1_0000_0000_0000_0000
                &&& read_le(record, 496 + 16 * i, 8) == regs.vs()[i] as nat / 0x1_0000_0000_0000_0000
            }
        }),
{
    regs.lemma_shape();
    lemma_byte_weight_eight();
    let header = record_header(RECORD_EXCEPTION, 0, 1000);
    let event = words_bytes(seq![icount, from_pc, to_pc]);
    let code = le_bytes(discon as nat, 4);
    let state = state_bytes(regs);
    let record = exception_record(icount, from_pc, to_pc, discon, regs);
    lemma_le_read(1000, 2);
    lemma_le_read(discon as nat, 4);
    lemma_words_bytes_layout(seq![icount, from_pc, to_pc]);
    lemma_words_bytes_layout(regs.xs());
    lemma_vectors_bytes_layout(regs.vs());
    let length = le_bytes(1000, 2);
    assert(header == seq![RECORD_EXCEPTION, 0u8] + length + zeros(4));
    assert(header.len() == 8);
    assert(header.subrange(2, 4) =~= length);
    lemma_run_of_part(header, length, 2, 0, 2);
    let xs = words_bytes(regs.xs());
    let sp = le_bytes(regs.sp_value() as nat, 8);
    let pc = le_bytes(regs.pc_value() as nat, 8);
    let pstate = le_bytes(regs.pstate.trace_word() as nat, 8);
    let fpcr = le_bytes(regs.fpcr as nat, 8);
    let fpsr = le_bytes(regs.fpsr as nat, 8);
    let vectors = vectors_bytes(regs.vs());
    lemma_le_read(regs.sp_value() as nat, 8);
    lemma_le_read(regs.pc_value() as nat, 8);
    lemma_le_read(regs.pstate.trace_word() as nat, 8);
    lemma_le_read(regs.fpcr as nat, 8);
    lemma_le_read(regs.fpsr as nat, 8);
    assert(state == xs + sp + pc + pstate + zeros(160) + fpcr + fpsr + vectors);
    assert(state.len() == 960);
    assert(record == header + event + code + zeros(4) + state);
    assert(record.len() == 1000);
    assert(record.subrange(0, 8) =~= header);
    assert(record.subrange(8, 32) =~= event);
    assert(record.subrange(32, 36) =~= code);
    assert(record.subrange(40, 1000) =~= state);
    assert(state.subrange(0, 248) =~= xs);
    assert(state.subrange(248, 256) =~= sp);
    assert(state.subrange(256, 264) =~= pc);
    assert(state.subrange(264, 272) =~= pstate);
    assert(state.subrange(432, 440) =~= fpcr);
    assert(state.subrange(440, 448) =~= fpsr);
    assert(state.subrange(448, 960) =~= vectors);
    lemma_run_of_part(record, header, 0, 2, 2);
    lemma_run_of_part(record, event, 8, 0, 8);
    lemma_run_of_part(record, event, 8, 8, 8);
    lemma_run_of_part(record, event, 8, 16, 8);
    assert(read_le(event, 8 * 0int, 8) == icount && read_le(event, 8 * 1int, 8) == from_pc && read_le(event, 8 * 2int, 8) == to_pc);
    lemma_run_of_part(record, code, 32, 0, 4);
    assert(record[0] == header[0] && record[1] == header[1]);
    assert forall|i: int| 0 <= i < 31 implies #[trigger] read_le(record, 40 + 8 * i, 8) == regs.xs()[i] by {
        lemma_run_of_part(state, xs, 0, 8 * i, 8);
        lemma_run_of_part(record, state, 40, 8 * i, 8);
        assert(read_le(xs, 8 * i, 8) == regs.xs()[i]);
    }
    lemma_run_of_part(state, sp, 248, 0, 8);
    lemma_run_of_part(record, state, 40, 248, 8);
    lemma_run_of_part(state, pc, 256, 0, 8);
    lemma_run_of_part(record, state, 40, 256, 8);
    lemma_run_of_part(state, pstate, 264, 0, 8);
    lemma_run_of_part(record, state, 40, 264, 8);
    lemma_run_of_part(state, fpcr, 432, 0, 8);
    lemma_run_of_part(record, state, 40, 432, 8);
    lemma_run_of_part(state, fpsr, 440, 0, 8);
    lemma_run_of_part(record, state, 40, 440, 8);
    assert forall|j: int| 312 <= j < 472 implies #[trigger] record[j] == 0 by {
        assert(record.subrange(40, 1000)[j - 40] == state[j - 40]);
    }
    assert forall|i: int| 0 <= i < 32 implies {
        &&& #[trigger] read_le(record, 488 + 16 * i, 8) == regs.vs()[i] as nat % 0x1_0000_0000_0000_0000
        &&& read_le(record, 496 + 16 * i, 8) == regs.vs()[i] as nat / 0x1_0000_0000_0000_0000
    } by {
        assert(read_le(vectors, 16 * i, 8) == regs.vs()[i] as nat % 0x1_0000_0000_0000_0000);
        lemma_run_of_part(state, vectors, 448, 16 * i, 8);
        lemma_run_of_part(record, state, 40, 448 + 16 * i, 8);
        lemma_run_of_part(state, vectors, 448, 16 * i + 8, 8);
        lemma_run_of_part(record, state, 40, 448 + 16 * i + 8, 8);
    }
}

/// Register deltas are laid out sixteen bytes each, in order: the two bytes
/// at `16 * i` spell delta `i`'s register id, six zero bytes follow, and the
/// eight bytes at `16 * i + 8` spell its value.
pub proof fn lemma_deltas_bytes_layout(deltas: Seq<RegDelta>)
    ensures
        deltas_bytes(deltas).len() == 16 * deltas.len(),
        forall|i: int| 0 <= i < deltas.len() ==> {
            &&& #[trigger] read_le(deltas_bytes(deltas), 16 * i, 2) == deltas[i].reg_id
            &&& read_le(deltas_bytes(deltas), 16 * i + 8, 8) == deltas[i].value
            &&& forall|j: int| 16 * i + 2 <= j < 16 * i + 8 ==> #[trigger] deltas_bytes(deltas)[j] == 0
        },
    decreases deltas.len(),
{
    if deltas.len() > 0 {
        let init = deltas.drop_last();
        let last = deltas.last();
        lemma_deltas_bytes_layout(init);
        lemma_le_read(last.reg_id as nat, 2);
        lemma_le_read(last.value as nat, 8);
        lemma_byte_weight_eight();
        let front = deltas_bytes(init);
        let id = le_bytes(last.reg_id as nat, 2);
        let value = le_bytes(last.value as nat, 8);
        let back = delta_bytes(last);
        let whole = deltas_bytes(deltas);
        let n = front.len() as int;
        assert(back == id + zeros(6) + value);
        assert(whole == front + back);
        assert(whole.subrange(0, n) =~= front);
        assert(whole.subrange(n, n + 2) =~= id);
        assert(whole.subrange(n + 8, n + 16) =~= value);
        assert forall|i: int| 0 <= i < deltas.len() implies {
            &&& #[trigger] read_le(whole, 16 * i, 2) == deltas[i].reg_id
            &&& read_le(whole, 16 * i + 8, 8) == deltas[i].value
            &&& forall|j: int| 16 * i + 2 <= j < 16 * i + 8 ==> #[trigger] whole[j] == 0
        } by {
            if i < deltas.len() - 1 {
                lemma_run_of_part(whole, front, 0, 16 * i, 2);
                lemma_run_of_part(whole, front, 0, 16 * i + 8, 8);
                assert(init[i] == deltas[i]);
                assert forall|j: int| 16 * i + 2 <= j < 16 * i + 8 implies #[trigger] whole[j] == 0 by {
                    assert(whole[j] == front[j]);
                }
            } else {
                lemma_run_of_part(whole, id, n, 0, 2);
                lemma_run_of_part(whole, value, n + 8, 0, 8);
            }
        }
    }
}

/// How many deltas a block record keeps: all of them, up to 255.
pub open spec fn block_count(deltas: Seq<RegDelta>) -> int {
    if deltas.len() <= 255 { deltas.len() as int } else { 255 }
}

/// A block record's layout, for the deltas it keeps (the first 255 at
/// most): typed as a block, with the kept count in byte 1 and the length
/// `32 + 16 * count` in bytes 2..4; the block's PC and instruction count are
/// the words at 8 and 16, one instruction per block in bytes 24..26; and
/// from 32 each kept delta as sixteen bytes, its register id first and its
/// value at eight bytes in.
#[verifier::spinoff_prover]
pub proof fn lemma_block_record_layout(pc: u64, icount: u64, deltas: Seq<RegDelta>)
    ensures
        block_record(pc, icount, deltas).len() == 32 + 16 * block_count(deltas),
        block_record(pc, icount, deltas)[0] == RECORD_BLOCK,
        block_record(pc, icount, deltas)[1] == block_count(deltas),
        read_le(block_record(pc, icount, deltas), 2, 2) == 32 + 16 * block_count(deltas),
        read_le(block_record(pc, icount, deltas), 8, 8) == pc,
        read_le(block_record(pc, icount, deltas), 16, 8) == icount,
        read_le(block_record(pc, icount, deltas), 24, 2) == 1,
        forall|i: int| 0 <= i < block_count(deltas) ==> {
            &&& #[trigger] read_le(block_record(pc, icount, deltas), 32 + 16 * i, 2) == deltas[i].reg_id
            &&& read_le(block_record(pc, icount, deltas), 40 + 16 * i, 8) == deltas[i].value
        },
{
    lemma_byte_weight_eight();
    let kept_deltas = super::sink::kept(deltas, 255);
    let count = kept_deltas.len();
    assert(count == if deltas.len() <= 255 { deltas.len() } else { 255 });
    let length = 32 + 16 * count;
    let header = record_header(RECORD_BLOCK, count as u8, length);
    let words = words_bytes(seq![pc, icount]);
    let per_block = le_bytes(1, 2);
    let body = deltas_bytes(kept_deltas);
    let record = block_record(pc, icount, deltas);
    lemma_le_read(length, 2);
    lemma_le_read(1, 2);
    lemma_words_bytes_layout(seq![pc, icount]);
    lemma_deltas_bytes_layout(kept_deltas);
    let length_bytes = le_bytes(length, 2);
    assert(header == seq![RECORD_BLOCK, count as u8] + length_bytes + zeros(4));
    assert(header.subrange(2, 4) =~= length_bytes);
    assert(record == header + words + per_block + zeros(6) + body);
    assert(record.subrange(0, 8) =~= header);
    assert(record.subrange(8, 24) =~= words);
    assert(record.subrange(24, 26) =~= per_block);
    assert(record.subrange(32, 32 + 16 * count as int) =~= body);
    lemma_run_of_part(header, length_bytes, 2, 0, 2);
    lemma_run_of_part(record, header, 0, 2, 2);
    lemma_run_of_part(record, words, 8, 0, 8);
    lemma_run_of_part(record, words, 8, 8, 8);
    assert(read_le(words, 8 * 0int, 8) == pc && read_le(words, 8 * 1int, 8) == icount);
    lemma_run_of_part(record, per_block, 24, 0, 2);
    assert(record[0] == header[0] && record[1] == header[1]);
    assert(count <= 255);
    assert((count as u8) as nat == count);
    assert(header[1] == count as u8);
    assert(length < 0x1_0000) by {
        assert(length <= 32 + 16 * 255);
    }
    assert(read_le(length_bytes, 0, 2) == length);
    assert(read_le(record, 2, 2) == length);
    assert(record.len() == 32 + 16 * count);
    assert(read_le(per_block, 0, 2) == 1);
    assert(record[1] == count);
    assert(read_le(record, 8, 8) == pc);
    assert(read_le(record, 16, 8) == icount);
    assert(read_le(record, 24, 2) == 1);
    assert(count == block_count(deltas));
    assert forall|i: int| 0 <= i < block_count(deltas) implies {
        &&& #[trigger] read_le(block_record(pc, icount, deltas), 32 + 16 * i, 2) == deltas[i].reg_id
        &&& read_le(block_record(pc, icount, deltas), 40 + 16 * i, 8) == deltas[i].value
    } by {
        lemma_run_of_part(record, body, 32, 16 * i, 2);
        lemma_run_of_part(record, body, 32, 16 * i + 8, 8);
        assert(kept_deltas[i] == deltas[i]);
        assert(read_le(body, 16 * i, 2) == kept_deltas[i].reg_id);
        assert(read_le(body, 16 * i + 8, 8) == kept_deltas[i].value);
    }
}

/// A marker record's layout: 32 bytes, typed as a marker, with the
/// instruction count, the marker's kind code and its value as the words at
/// 8, 16 and 24.
pub proof fn lemma_marker_record_layout(kind: MarkerKind, icount: u64, value: u64)
    ensures
        ({
            let record = marker_record(kind, icount, value);
            &&& record.len() == 32
            &&& record[0] == RECORD_MARKER
            &&& read_le(record, 2, 2) == 32
            &&& read_le(record, 8, 8) == icount
            &&& read_le(record, 16, 8) == kind.code()
            &&& read_le(record, 24, 8) == value
        }),
{
    lemma_byte_weight_eight();
    let header = record_header(RECORD_MARKER, 0, 32);
    let words = words_bytes(seq![icount, kind.code(), value]);
    let record = marker_record(kind, icount, value);
    lemma_le_read(32, 2);
    lemma_words_bytes_layout(seq![icount, kind.code(), value]);
    let length_bytes = le_bytes(32, 2);
    assert(header == seq![RECORD_MARKER, 0u8] + length_bytes + zeros(4));
    assert(header.subrange(2, 4) =~= length_bytes);
    assert(record.subrange(0, 8) =~= header);
    assert(record.subrange(8, 32) =~= words);
    lemma_run_of_part(header, length_bytes, 2, 0, 2);
    lemma_run_of_part(record, header, 0, 2, 2);
    lemma_run_of_part(record, words, 8, 0, 8);
    lemma_run_of_part(record, words, 8, 8, 8);
    lemma_run_of_part(record, words, 8, 16, 8);
    assert(read_le(words, 8 * 0int, 8) == icount && read_le(words, 8 * 1int, 8) == kind.code()
        && read_le(words, 8 * 2int, 8) == value);
    assert(record[0] == header[0]);
}

/// An end record's layout: 24 bytes, typed as the end, with the total
/// retired and the reason's code as the words at 8 and 16.
pub proof fn lemma_end_record_layout(reason: EndReason, icount: u64)
    ensures
        ({
            let record = end_record(reason, icount);
            &&& record.len() == 24
            &&& record[0] == RECORD_END
            &&& read_le(record, 2, 2) == 24
            &&& read_le(record, 8, 8) == icount
            &&& read_le(record, 16, 8) == reason.code()
        }),
{
    lemma_byte_weight_eight();
    let header = record_header(RECORD_END, 0, 24);
    let words = words_bytes(seq![icount, reason.code()]);
    let record = end_record(reason, icount);
    lemma_le_read(24, 2);
    lemma_words_bytes_layout(seq![icount, reason.code()]);
    let length_bytes = le_bytes(24, 2);
    assert(header == seq![RECORD_END, 0u8] + length_bytes + zeros(4));
    assert(header.subrange(2, 4) =~= length_bytes);
    assert(record.subrange(0, 8) =~= header);
    assert(record.subrange(8, 24) =~= words);
    lemma_run_of_part(header, length_bytes, 2, 0, 2);
    lemma_run_of_part(record, header, 0, 2, 2);
    lemma_run_of_part(record, words, 8, 0, 8);
    lemma_run_of_part(record, words, 8, 8, 8);
    assert(read_le(words, 8 * 0int, 8) == icount && read_le(words, 8 * 1int, 8) == reason.code());
    assert(record[0] == header[0]);
}

/// A file header's layout: 80 bytes; the magic in bytes 0..8; the format
/// version at 8 and the producer at 12, four bytes each; the stream flags
/// at 16, block deltas and vector registers always and precise FP exactly
/// for a softfloat-everywhere build; the CPU feature id at 24; from 32, the
/// producer name's first 32 bytes padded with zeroes; and sixteen zero bytes
/// from 64.
pub proof fn lemma_file_header_layout(name: Seq<u8>, fp_mode: FpMode)
    ensures
        ({
            let header = file_header(name, fp_mode);
            &&& header.len() == 80
            &&& header.subrange(0, 8) == MAGIC@
            &&& read_le(header, 8, 4) == FORMAT_VERSION
            &&& read_le(header, 12, 4) == PRODUCER_CORACLE
            &&& read_le(header, 16, 8) == FLAG_BLOCK_DELTAS + FLAG_HAS_VREGS
                + (if fp_mode == FpMode::Precise { FLAG_PRECISE_FP } else { 0 })
            &&& read_le(header, 24, 8) == fnv1a_hash(FEATURE_MASK.spec_bytes())
            &&& forall|j: int| 0 <= j < 32 ==> #[trigger] header[32 + j] == (if j < name.len() { name[j] } else { 0u8 })
            &&& forall|j: int| 64 <= j < 80 ==> #[trigger] header[j] == 0
        }),
{
    lemma_byte_weight_eight();
    let magic = MAGIC@;
    assert(magic.len() == 8);
    let version = le_bytes(FORMAT_VERSION as nat, 4);
    let producer = le_bytes(PRODUCER_CORACLE as nat, 4);
    let flags = le_bytes(header_flags(fp_mode) as nat, 8);
    let feature = le_bytes(fnv1a_hash(FEATURE_MASK.spec_bytes()) as nat, 8);
    let named = name_field(name);
    lemma_le_read(FORMAT_VERSION as nat, 4);
    lemma_le_read(PRODUCER_CORACLE as nat, 4);
    lemma_le_read(header_flags(fp_mode) as nat, 8);
    lemma_le_read(fnv1a_hash(FEATURE_MASK.spec_bytes()) as nat, 8);
    assert(named.len() == 32);
    let header = file_header(name, fp_mode);
    assert(header == magic + version + producer + flags + feature + named + zeros(16));
    assert(header.subrange(0, 8) =~= magic);
    assert(header.subrange(8, 12) =~= version);
    assert(header.subrange(12, 16) =~= producer);
    assert(header.subrange(16, 24) =~= flags);
    assert(header.subrange(24, 32) =~= feature);
    lemma_run_of_part(header, version, 8, 0, 4);
    lemma_run_of_part(header, producer, 12, 0, 4);
    lemma_run_of_part(header, flags, 16, 0, 8);
    lemma_run_of_part(header, feature, 24, 0, 8);
    assert forall|j: int| 0 <= j < 32 implies #[trigger] header[32 + j] == (if j < name.len() { name[j] } else { 0u8 }) by {
        assert(header[32 + j] == named[j]);
    }
}

} // verus!
