use lib::regfile::RegFile;
use lib::trace::format::{cpu_feature_id, FILE_HEADER_BYTES, MAGIC};
use lib::trace::sink::{ExceptionEvent, RegDelta, TraceSink};
use lib::trace::writer::{CdtWriter, FpMode};
use lib::trace::{DisconType, EndReason, MarkerKind};

fn word(bytes: &[u8], at: usize) -> u64 {
    let mut value = [0u8; 8];
    value.copy_from_slice(&bytes[at..at + 8]);
    u64::from_le_bytes(value)
}

#[test]
fn the_file_header_is_eighty_bytes_with_magic_flags_and_name() {
    let writer = CdtWriter::new("coracle", FpMode::Precise);
    let bytes = writer.bytes();

    assert_eq!(bytes.len(), FILE_HEADER_BYTES);
    assert_eq!(&bytes[0..8], &MAGIC);
    assert_eq!(&bytes[8..12], &1u32.to_le_bytes(), "format version");
    assert_eq!(&bytes[12..16], &2u32.to_le_bytes(), "producer");
    assert_eq!(word(bytes, 16), 0b1011, "block deltas, vector registers, precise FP");
    assert_eq!(word(bytes, 24), cpu_feature_id());
    assert_eq!(&bytes[32..39], b"coracle");
    assert!(bytes[39..80].iter().all(|&b| b == 0), "name padding and reserved bytes");

    let native = CdtWriter::new("coracle", FpMode::Native);
    assert_eq!(word(native.bytes(), 16), 0b1010, "no precise-FP flag");
}

#[test]
fn a_long_producer_name_is_cut_at_thirty_two_bytes() {
    let name = "abcdefghijklmnopqrstuvwxyz0123456789";
    let writer = CdtWriter::new(name, FpMode::Native);
    assert_eq!(&writer.bytes()[32..64], &name.as_bytes()[..32]);
    assert_eq!(writer.bytes().len(), FILE_HEADER_BYTES);
}

#[test]
fn a_marker_record_carries_its_count_kind_and_value() {
    let mut writer = CdtWriter::new("t", FpMode::Native);
    writer.take();
    writer.on_marker(MarkerKind::TraceStart, 7, 0x1234);
    let bytes = writer.take();

    assert_eq!(bytes.len(), 32);
    assert_eq!(&bytes[0..8], &[3, 0, 32, 0, 0, 0, 0, 0]);
    assert_eq!(word(&bytes, 8), 7);
    assert_eq!(word(&bytes, 16), 1, "TraceStart");
    assert_eq!(word(&bytes, 24), 0x1234);
    assert!(writer.bytes().is_empty(), "take leaves the stream empty");
}

#[test]
fn a_block_record_lists_its_deltas_after_the_prefix() {
    let mut writer = CdtWriter::new("t", FpMode::Native);
    writer.take();
    let deltas = [RegDelta { reg_id: 3, value: 0xaa }, RegDelta { reg_id: 32, value: 0x400000 }];
    writer.on_block(0x40_0000, 9, &deltas);
    let bytes = writer.take();

    assert_eq!(bytes.len(), 32 + 2 * 16);
    assert_eq!(&bytes[0..4], &[1, 2, 64, 0], "type, delta count, length");
    assert_eq!(word(&bytes, 8), 0x40_0000);
    assert_eq!(word(&bytes, 16), 9);
    assert_eq!(&bytes[24..32], &[1, 0, 0, 0, 0, 0, 0, 0], "one instruction per block");
    assert_eq!(&bytes[32..40], &[3, 0, 0, 0, 0, 0, 0, 0]);
    assert_eq!(word(&bytes, 40), 0xaa);
    assert_eq!(&bytes[48..50], &[32, 0]);
    assert_eq!(word(&bytes, 56), 0x400000);
}

#[test]
fn a_block_record_keeps_at_most_255_deltas() {
    let mut writer = CdtWriter::new("t", FpMode::Native);
    writer.take();
    let deltas = vec![RegDelta { reg_id: 1, value: 2 }; 300];
    writer.on_block(0, 0, &deltas);
    let bytes = writer.take();

    assert_eq!(bytes[1], 255);
    assert_eq!(bytes.len(), 32 + 255 * 16);
}

#[test]
fn an_exception_record_carries_the_full_state() {
    let mut writer = CdtWriter::new("t", FpMode::Native);
    writer.take();
    let mut regs = RegFile::new();
    regs.set_pc(0x1000);
    regs.fpcr = 0x0300_0000;
    let event = ExceptionEvent {
        icount: 5,
        from_pc: 0x2000,
        to_pc: 0x1000,
        discon: DisconType::HostCall,
        regs: &regs,
    };
    writer.on_exception(&event);
    let bytes = writer.take();

    assert_eq!(bytes.len(), 1000);
    assert_eq!(&bytes[0..4], &[2, 0, 0xe8, 0x03], "length 1000");
    assert_eq!(word(&bytes, 8), 5);
    assert_eq!(word(&bytes, 16), 0x2000);
    assert_eq!(word(&bytes, 24), 0x1000);
    assert_eq!(&bytes[32..36], &4u32.to_le_bytes(), "host call");
    // x0..x30, then SP, then PC.
    let state = 40;
    assert_eq!(word(&bytes, state + 32 * 8), 0x1000, "pc");
    // After PSTATE and twenty system registers come FPCR and FPSR.
    assert_eq!(word(&bytes, state + (34 + 20) * 8), 0x0300_0000, "fpcr");
}

#[test]
fn the_end_record_carries_the_total_retired_and_the_reason() {
    let mut writer = CdtWriter::new("t", FpMode::Native);
    writer.take();
    writer.finish(EndReason::GuestHalt, 42);
    let bytes = writer.take();

    assert_eq!(bytes.len(), 24);
    assert_eq!(&bytes[0..4], &[4, 0, 24, 0]);
    assert_eq!(word(&bytes, 8), 42);
    assert_eq!(word(&bytes, 16), 2);
}
