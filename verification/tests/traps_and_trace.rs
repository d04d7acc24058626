use lib::decode::{decode, EncodingGroup};
use lib::regfile::RegFile;
use lib::reg::Gpr;
use lib::trace::format::{
    cpu_feature_id, fnv1a, BLOCK_PREFIX_BYTES, FEATURE_MASK, FILE_HEADER_BYTES, FNV_OFFSET_BASIS,
    RECORD_HEADER_BYTES, REG_DELTA_BYTES,
};
use lib::trace::{deltas_between, DeltaBuffer, DeltaOut, DisconType, EndReason, ExceptionEvent, MarkerKind, NullSink, RegDelta, TraceSink};
use lib::trap::{is_unimplemented, Trap, TrapLog, TRAP_LOG_CAPACITY};

#[test]
fn repeated_encounters_with_one_encoding_collapse_to_a_single_entry() {
    let mut log = TrapLog::new();

    for _ in 0..1000 {
        log.record(0x4e20_8400);
    }

    let entries = log.entries();
    assert_eq!(entries.len(), 1);
    assert_eq!(entries[0].encoding, 0x4e20_8400);
    assert_eq!(entries[0].count, 1000);
    assert_eq!(log.total_encounters(), 1000);
    assert_eq!(log.dropped_encodings(), 0);
}

#[test]
fn an_entry_names_the_group_that_owes_the_implementation() {
    let mut log = TrapLog::new();

    log.record(0x4e20_8400);

    let entry = log.entries()[0];
    assert_eq!(entry.group, EncodingGroup::DataProcessingSimdFp);
}

#[test]
fn overflowing_the_log_is_counted_rather_than_silently_lost() {
    let mut log = TrapLog::new();

    // One past capacity, all distinct.
    for encoding in 0..TRAP_LOG_CAPACITY as u32 + 1 {
        log.record(encoding);
    }

    assert_eq!(log.entries().len(), TRAP_LOG_CAPACITY);
    assert_eq!(log.dropped_encodings(), 1);
    assert_eq!(log.total_encounters(), TRAP_LOG_CAPACITY as u64 + 1);
}

#[test]
fn a_full_log_still_counts_encodings_it_already_holds() {
    let mut log = TrapLog::new();
    for encoding in 0..TRAP_LOG_CAPACITY as u32 {
        log.record(encoding);
    }

    log.record(0);

    assert_eq!(log.dropped_encodings(), 0);
    let first = log.entries()[0];
    assert_eq!(first.count, 2);
}

#[test]
fn only_undefined_instruction_traps_are_a_coverage_gap() {
    let mut log = TrapLog::new();

    log.record_trap(Trap::SupervisorCall { pc: 0x1000, imm: 0 });
    log.record_trap(Trap::DataAbort { pc: 0x1000, address: 0, is_write: true });

    assert!(log.is_empty());

    log.record_trap(Trap::UndefinedInstruction { pc: 0x1000, encoding: 0xffff_ffff });

    assert!(!log.is_empty());
}

#[test]
fn an_unimplemented_encoding_becomes_a_trap_naming_its_own_pc() {
    let insn = decode(0x4e20_8400);
    assert!(is_unimplemented(&insn));

    let trap = Trap::undefined(0xdead_0000, &insn);

    assert_eq!(trap, Trap::UndefinedInstruction { pc: 0xdead_0000, encoding: 0x4e20_8400 });
}

#[test]
fn a_fuzz_sweep_of_random_words_never_panics_and_stays_bounded() {
    // The log must absorb whatever random words produce without growing or
    // aborting.
    let mut log = TrapLog::new();
    let mut state = 0x853c_49e6_748f_ea9bu64;

    for _ in 0..100_000 {
        state ^= state << 13;
        state ^= state >> 7;
        state ^= state << 17;
        let insn = decode(state as u32);
        if is_unimplemented(&insn) {
            log.record_trap(Trap::undefined(0x1000, &insn));
        }
    }

    assert!(log.entries().len() <= TRAP_LOG_CAPACITY);
    assert!(log.total_encounters() > 0);
}

#[test]
fn the_counts_and_the_dropped_encounters_add_up_to_the_total() {
    let mut log = TrapLog::new();
    for round in 0..3u32 {
        for encoding in 0..TRAP_LOG_CAPACITY as u32 + 10 {
            log.record(encoding + round % 2);
        }
    }

    let counted: u64 = log.entries().iter().map(|entry| entry.count).sum();
    assert_eq!(counted + log.dropped_encodings(), log.total_encounters());
}

#[test]
fn fnv1a_matches_the_published_test_vectors() {
    // Standard FNV-1a 64-bit vectors, so a transcription error in the
    // constants is caught without depending on the feature string.
    assert_eq!(fnv1a(""), FNV_OFFSET_BASIS);
    assert_eq!(fnv1a("a"), 0xaf63_dc4c_8601_ec8c);
    assert_eq!(fnv1a("foobar"), 0x8594_4171_f739_67e8);
}

#[test]
fn the_feature_string_is_the_one_the_harness_pins() {
    // A change on either side must be made on both, or the differ refuses to
    // run.
    assert_eq!(FEATURE_MASK, "armv8.0-a+el1+nolse+nosve+nopauth+nomte+nobti+qemucrypto");
    // Pinned so a change to either the string or the hash is a test failure
    // here rather than a refusal to compare at gate time.
    assert_eq!(cpu_feature_id(), 0x665f_e771_b960_5c07);
}

#[test]
fn record_sizes_are_the_multiples_of_eight_the_format_requires() {
    for size in [FILE_HEADER_BYTES, RECORD_HEADER_BYTES, REG_DELTA_BYTES, BLOCK_PREFIX_BYTES] {
        assert_eq!(size % 8, 0, "{size} is not 8-byte aligned");
    }
}

#[test]
fn wire_codes_match_the_format() {
    assert_eq!(MarkerKind::TraceStart.code(), 1);
    assert_eq!(MarkerKind::Annotation.code(), 3);
    assert_eq!(EndReason::Normal.code(), 0);
    assert_eq!(EndReason::GuestHalt.code(), 2);
    assert_eq!(DisconType::HostCall.code(), 4);
}

#[test]
fn the_null_sink_accepts_every_event_without_state() {
    let regs = RegFile::new();
    let mut sink = NullSink;

    sink.on_marker(MarkerKind::TraceStart, 0, 0);
    sink.on_block(0x1000, 0, &[RegDelta { reg_id: 0, value: 1 }]);
    sink.on_exception(&ExceptionEvent { icount: 1, from_pc: 0x1000, to_pc: 0x200, discon: DisconType::Exception, regs: &regs });
    sink.finish(EndReason::Normal, 1);
    assert!(!sink.enabled());
}

#[test]
fn a_diff_against_nothing_emits_every_register() {
    let regs = RegFile::new();
    let mut out = DeltaBuffer::new();

    deltas_between(None, &regs, &mut out);

    // 31 general-purpose registers, SP, PC, PSTATE, FPCR, FPSR, and two halves
    // of each of 32 vector registers.
    assert_eq!(out.as_slice().len(), 31 + 5 + 64);
    assert_eq!(out.as_slice()[0], RegDelta { reg_id: 0, value: 0 });
    assert_eq!(out.as_slice()[36], RegDelta { reg_id: 64, value: 0 });
}

#[test]
fn a_diff_emits_only_what_changed() {
    let before = RegFile::new();
    let mut after = RegFile::new();
    after.write_x(Gpr::X(3), 9);
    after.set_pc(0x40);
    after.write_v(lib::reg::Vec::new(2), (5u128 << 64) | 6);
    let mut out = DeltaBuffer::new();

    deltas_between(Some(&before), &after, &mut out);

    assert_eq!(
        out.as_slice(),
        &[
            RegDelta { reg_id: 3, value: 9 },
            RegDelta { reg_id: 32, value: 0x40 },
            RegDelta { reg_id: 68, value: 6 },
            RegDelta { reg_id: 69, value: 5 },
        ]
    );

    out.clear();
    assert!(out.as_slice().is_empty());
}
