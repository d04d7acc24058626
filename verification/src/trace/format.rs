//! CDT v1 wire constants.
//!
//! The differ and the QEMU plugin hardcode the same numbers; this module must
//! not diverge from them.
use vstd::prelude::*;
use vstd::string::StringSliceAdditionalSpecFns;

verus! {

/// File magic, including the format-generation byte.
pub const MAGIC: [u8; 8] = [0x43, 0x4f, 0x52, 0x41, 0x43, 0x4c, 0x45, 0x01];

/// Format version this crate emits.
pub const FORMAT_VERSION: u32 = 1;

/// Producer id for streams this emulator writes.
pub const PRODUCER_CORACLE: u32 = 2;

/// Bytes in the file header.
pub const FILE_HEADER_BYTES: usize = 80;

/// Bytes in a record's common prologue.
pub const RECORD_HEADER_BYTES: usize = 8;

/// Bytes in one register delta.
pub const REG_DELTA_BYTES: usize = 16;

/// Bytes before the delta array in a block record.
pub const BLOCK_PREFIX_BYTES: usize = 32;

/// Bytes available for the producer name, NUL-padded.
pub const PRODUCER_NAME_BYTES: usize = 32;

/// Largest `flags` value a block record can carry, and so the most deltas one
/// record can hold. `flags` is a single byte.
pub const MAX_DELTAS_PER_BLOCK: usize = 255;

/// Record type tag: a basic block retired, with a register delta.
pub const RECORD_BLOCK: u8 = 1;
/// Record type tag: exception or interrupt entry, with full architectural state.
pub const RECORD_EXCEPTION: u8 = 2;
/// Record type tag: synchronisation or annotation.
pub const RECORD_MARKER: u8 = 3;
/// Record type tag: clean end of stream.
pub const RECORD_END: u8 = 4;

/// Stream flag: producer ran softfloat everywhere.
pub const FLAG_PRECISE_FP: u64 = 1;
/// Stream flag: block records may carry V-register deltas.
pub const FLAG_HAS_VREGS: u64 = 2;
/// Stream flag: block records may carry EL1 system-register deltas.
pub const FLAG_HAS_SYSREGS: u64 = 4;
/// Stream flag: block records are deltas. Always set in v1.
pub const FLAG_BLOCK_DELTAS: u64 = 8;

/// `kind` values for a marker record.
#[derive(Debug, Clone, Copy, PartialEq, Eq, Structural)]
pub enum MarkerKind {
    /// Start of trace. Required once, before the first block.
    TraceStart,
    /// Machine reset.
    Reset,
    /// Caller-supplied annotation.
    Annotation,
}

impl MarkerKind {
    /// The number the wire format gives this kind.
    #[verifier::allow_in_spec]
    pub fn code(self) -> (r: u64)
        returns
            (match self {
                MarkerKind::TraceStart => 1u64,
                MarkerKind::Reset => 2u64,
                MarkerKind::Annotation => 3u64,
            }),
    {
        match self {
            MarkerKind::TraceStart => 1,
            MarkerKind::Reset => 2,
            MarkerKind::Annotation => 3,
        }
    }
}

/// Why a stream ended.
#[derive(Debug, Clone, Copy, PartialEq, Eq, Structural)]
pub enum EndReason {
    /// Guest ran to completion.
    Normal,
    /// An instruction or time limit was reached.
    LimitReached,
    /// The guest halted itself.
    GuestHalt,
}

impl EndReason {
    /// The number the wire format gives this reason.
    #[verifier::allow_in_spec]
    pub fn code(self) -> (r: u64)
        returns
            (match self {
                EndReason::Normal => 0u64,
                EndReason::LimitReached => 1u64,
                EndReason::GuestHalt => 2u64,
            }),
    {
        match self {
            EndReason::Normal => 0,
            EndReason::LimitReached => 1,
            EndReason::GuestHalt => 2,
        }
    }
}

/// What kind of control-flow discontinuity an exception record describes.
#[derive(Debug, Clone, Copy, PartialEq, Eq, Structural)]
pub enum DisconType {
    /// An asynchronous interrupt.
    Interrupt,
    /// A synchronous exception.
    Exception,
    /// A call out to the host: PSCI, `HVC`, `SMC`, or the syscall shim.
    HostCall,
}

impl DisconType {
    /// The number the wire format gives this discontinuity.
    #[verifier::allow_in_spec]
    pub fn code(self) -> (r: u32)
        returns
            (match self {
                DisconType::Interrupt => 1u32,
                DisconType::Exception => 2u32,
                DisconType::HostCall => 4u32,
            }),
    {
        match self {
            DisconType::Interrupt => 1,
            DisconType::Exception => 2,
            DisconType::HostCall => 4,
        }
    }
}

/// The advertised CPU feature mask.
///
/// The differ refuses to compare two streams whose hashes of this string
/// disagree, which is what stops a feature-mask drift from surfacing as
/// thousands of spurious divergences.
pub const FEATURE_MASK: &'static str = "armv8.0-a+el1+nolse+nosve+nopauth+nomte+nobti+qemucrypto";

/// FNV-1a's starting hash.
pub const FNV_OFFSET_BASIS: u64 = 0xcbf2_9ce4_8422_2325;

/// FNV-1a's multiplier.
pub const FNV_PRIME: u64 = 0x0000_0100_0000_01b3;

/// 64-bit FNV-1a of `bytes`: from the offset basis, each byte in turn is
/// xored into the hash, which is then multiplied by the prime modulo `2^64`.
pub open spec fn fnv1a_hash(bytes: Seq<u8>) -> u64
    decreases bytes.len(),
{
    if bytes.len() == 0 {
        FNV_OFFSET_BASIS
    } else {
        (((fnv1a_hash(bytes.drop_last()) ^ (bytes.last() as u64)) as int * FNV_PRIME as int)
            % 0x1_0000_0000_0000_0000) as u64
    }
}

/// 64-bit FNV-1a of `text`'s UTF-8 bytes.
pub fn fnv1a(text: &str) -> (r: u64)
    ensures
        r == fnv1a_hash(text.spec_bytes()),
{
    let bytes = text.as_bytes();
    let mut hash = FNV_OFFSET_BASIS;
    let mut index: usize = 0;
    while index < bytes.len()
        invariant
            index <= bytes@.len(),
            bytes@ == text.spec_bytes(),
            hash == fnv1a_hash(bytes@.take(index as int)),
        decreases bytes@.len() - index,
    {
        assert(bytes@.take(index + 1).drop_last() =~= bytes@.take(index as int));
        hash = hash ^ bytes[index] as u64;
        hash = hash.wrapping_mul(FNV_PRIME);
        index = index + 1;
    }
    assert(bytes@.take(index as int) =~= bytes@);
    hash
}

/// The `cpu_feature_id` this emulator writes into every stream header.
pub fn cpu_feature_id() -> (r: u64)
    ensures
        r == fnv1a_hash(FEATURE_MASK.spec_bytes()),
{
    fnv1a(FEATURE_MASK)
}

} // verus!
