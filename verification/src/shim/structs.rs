//! The kernel structures the shim writes into guest memory.
//!
//! Only the fields musl actually reads are filled; the rest stay zero. Offsets
//! are AArch64's, which for these three structures is the `asm-generic` layout.
use vstd::prelude::*;
use super::host::{Errno, SysResult};
use crate::interp::memory::{le_bytes, le_bytes_of, little_endian, Memory};

verus! {

/// Size of `struct stat` on AArch64.
pub const STAT_BYTES: usize = 128;
/// Size of `struct utsname`: six 65-byte fields.
pub const UTSNAME_BYTES: usize = 390;
/// Size of one `struct iovec`: a pointer and a length.
pub const IOVEC_BYTES: u64 = 16;
/// Length of each `struct utsname` field, including its terminator.
pub const UTSNAME_FIELD_BYTES: u64 = 65;

/// `S_IFCHR` — the mode bits that make libc treat a descriptor as a terminal.
pub const MODE_CHARACTER_DEVICE: u64 = 0o020_666;
/// `S_IFREG`.
pub const MODE_REGULAR_FILE: u64 = 0o100_644;

/// Whether `memory` is `before` with `bytes` stored from `address`, mapping
/// unchanged.
pub open spec fn holds_after<M: Memory>(memory: M, before: M, address: u64, bytes: Seq<u8>) -> bool {
    &&& forall|a: u64, n: nat| #[trigger] memory.covers(a, n) == before.covers(a, n)
    &&& forall|a: int| #[trigger] memory.byte_at(a) == (if address <= a < address + bytes.len() {
        bytes[a - address]
    } else {
        before.byte_at(a)
    })
}

/// Whether `memory` holds the same bytes as `before`, mapping unchanged.
pub open spec fn unchanged<M: Memory>(memory: M, before: M) -> bool {
    &&& forall|a: u64, n: nat| #[trigger] memory.covers(a, n) == before.covers(a, n)
    &&& forall|a: int| #[trigger] memory.byte_at(a) == before.byte_at(a)
}

/// The 128 bytes of a `struct stat`: `st_mode` (a `u32` at 16), `st_size` at
/// 48, `st_blksize` of 4096 at 56 and `st_blocks` of 512 bytes at 64, all
/// little-endian, and zero elsewhere.
pub open spec fn stat_image(is_terminal: bool, size: u64) -> Seq<u8> {
    let mode = if is_terminal { MODE_CHARACTER_DEVICE } else { MODE_REGULAR_FILE };
    let blocks = (size as int + 511) / 512;
    Seq::new(STAT_BYTES as nat, |i: int|
        if 16 <= i < 20 {
            le_bytes(mode as nat, 4)[i - 16]
        } else if 48 <= i < 56 {
            le_bytes(size as nat, 8)[i - 48]
        } else if 56 <= i < 60 {
            le_bytes(4096, 4)[i - 56]
        } else if 64 <= i < 72 {
            le_bytes(blocks as nat, 8)[i - 64]
        } else {
            0u8
        })
}

/// Copies `value`'s `width` bytes into `buffer` at `offset`.
fn put_le(buffer: &mut std::vec::Vec<u8>, offset: usize, value: u64, width: u8)
    requires
        width <= 8,
        offset + width <= old(buffer)@.len(),
    ensures
        final(buffer)@.len() == old(buffer)@.len(),
        forall|i: int| 0 <= i < final(buffer)@.len() ==> #[trigger] final(buffer)@[i] == (if offset <= i < offset + width {
            le_bytes(value as nat, width as nat)[i - offset]
        } else {
            old(buffer)@[i]
        }),
{
    let bytes = le_bytes_of(value, width);
    proof { crate::interp::memory::lemma_le_bytes_round_trip(value as nat, width as nat); }
    let total = buffer.len();
    let mut index: usize = 0;
    while index < width as usize
        invariant
            total == buffer@.len(),
            index <= width <= 8,
            offset + width <= buffer@.len(),
            bytes@ == le_bytes(value as nat, width as nat),
            bytes@.len() == width,
            buffer@.len() == old(buffer)@.len(),
            forall|i: int| 0 <= i < buffer@.len() ==> #[trigger] buffer@[i] == (if offset <= i < offset + index {
                bytes@[i - offset]
            } else {
                old(buffer)@[i]
            }),
        decreases width - index,
    {
        buffer.set(offset + index, bytes[index]);
        index = index + 1;
    }
}

/// `count` zero bytes.
fn zeroes(count: usize) -> (r: std::vec::Vec<u8>)
    ensures
        r@ == Seq::new(count as nat, |i: int| 0u8),
{
    let mut bytes: std::vec::Vec<u8> = std::vec::Vec::new();
    let mut index: usize = 0;
    while index < count
        invariant
            index <= count,
            bytes@ == Seq::new(index as nat, |i: int| 0u8),
        decreases count - index,
    {
        bytes.push(0);
        index = index + 1;
        assert(bytes@ =~= Seq::new(index as nat, |i: int| 0u8));
    }
    bytes
}

/// Writes a `struct stat` describing a character device or a regular file.
///
/// musl reads `st_mode` to decide whether stdout is line-buffered and
/// `st_size` to size a read buffer; nothing else in the startup path is read.
/// A structure outside memory is a fault, and then nothing is written.
pub fn write_stat<M: Memory>(memory: &mut M, address: u64, file: (bool, u64)) -> (r: Result<(), Errno>)
    ensures
        r is Ok <==> old(memory).covers(address, STAT_BYTES as nat),
        r is Ok ==> holds_after(*final(memory), *old(memory), address, stat_image(file.0, file.1)),
        r is Err ==> r == Err::<(), Errno>(Errno::Fault) && unchanged(*final(memory), *old(memory)),
{
    let (is_terminal, size) = file;
    let mut buffer = zeroes(STAT_BYTES);

    let mode = if is_terminal { MODE_CHARACTER_DEVICE } else { MODE_REGULAR_FILE };
    put_le(&mut buffer, 16, mode, 4);
    put_le(&mut buffer, 48, size, 8);
    // A plausible block size keeps libc from choosing a zero-sized stdio
    // buffer.
    put_le(&mut buffer, 56, 4096, 4);
    let blocks = size / 512 + if size % 512 == 0 { 0 } else { 1 };
    assert(blocks == (size as int + 511) / 512);
    put_le(&mut buffer, 64, blocks, 8);
    assert(buffer@ =~= stat_image(is_terminal, size));

    match memory.write(address, buffer.as_slice()) {
        Ok(()) => Ok(()),
        Err(_) => Err(Errno::Fault),
    }
}

/// The six `struct utsname` fields, in order: system, node, release, version,
/// machine, domain — "Linux", "coracle", "6.12.0", "#1 SMP coracle",
/// "aarch64" and "(none)".
pub open spec fn utsname_field(index: int) -> Seq<u8> {
    if index == 0 {
        seq![76u8, 105, 110, 117, 120]
    } else if index == 1 {
        seq![99u8, 111, 114, 97, 99, 108, 101]
    } else if index == 2 {
        seq![54u8, 46, 49, 50, 46, 48]
    } else if index == 3 {
        seq![35u8, 49, 32, 83, 77, 80, 32, 99, 111, 114, 97, 99, 108, 101]
    } else if index == 4 {
        seq![97u8, 97, 114, 99, 104, 54, 52]
    } else {
        seq![40u8, 110, 111, 110, 101, 41]
    }
}

/// The 390 bytes of a `struct utsname`: each of the six 65-byte slots holds
/// its field, NUL-padded.
pub open spec fn utsname_image() -> Seq<u8> {
    Seq::new(UTSNAME_BYTES as nat, |i: int| {
        let field = utsname_field(i / 65);
        if i % 65 < field.len() { field[i % 65] } else { 0u8 }
    })
}

/// Field `index` of [`utsname_image`], as bytes.
fn utsname_field_bytes(index: usize) -> (r: std::vec::Vec<u8>)
    requires
        index < 6,
    ensures
        r@ == utsname_field(index as int),
{
    // The release string gates feature detection in libc, so it names a kernel
    // new enough for the syscalls the shim answers.
    let r = if index == 0 {
        vec![76u8, 105, 110, 117, 120]
    } else if index == 1 {
        vec![99u8, 111, 114, 97, 99, 108, 101]
    } else if index == 2 {
        vec![54u8, 46, 49, 50, 46, 48]
    } else if index == 3 {
        vec![35u8, 49, 32, 83, 77, 80, 32, 99, 111, 114, 97, 99, 108, 101]
    } else if index == 4 {
        vec![97u8, 97, 114, 99, 104, 54, 52]
    } else {
        vec![40u8, 110, 111, 110, 101, 41]
    };
    assert(r@ =~= utsname_field(index as int));
    r
}

/// Writes a `struct utsname` naming this machine.
///
/// A structure outside memory is a fault, and then nothing is written.
pub fn write_utsname<M: Memory>(memory: &mut M, address: u64) -> (r: Result<(), Errno>)
    ensures
        r is Ok <==> old(memory).covers(address, UTSNAME_BYTES as nat),
        r is Ok ==> holds_after(*final(memory), *old(memory), address, utsname_image()),
        r is Err ==> r == Err::<(), Errno>(Errno::Fault) && unchanged(*final(memory), *old(memory)),
{
    let mut image = zeroes(UTSNAME_BYTES);
    let mut index: usize = 0;
    while index < 6
        invariant
            index <= 6,
            image@.len() == UTSNAME_BYTES,
            forall|i: int| 0 <= i < UTSNAME_BYTES ==> #[trigger] image@[i] == (if i / 65 < index {
                utsname_image()[i]
            } else {
                0u8
            }),
        decreases 6 - index,
    {
        let field = utsname_field_bytes(index);
        let mut offset: usize = 0;
        while offset < field.len()
            invariant
                index < 6,
                offset <= field@.len(),
                field@ == utsname_field(index as int),
                field@.len() <= 14,
                image@.len() == UTSNAME_BYTES,
                forall|i: int| 0 <= i < UTSNAME_BYTES ==> #[trigger] image@[i] == (if i / 65 < index
                    || (i / 65 == index && i % 65 < offset) {
                    utsname_image()[i]
                } else {
                    0u8
                }),
            decreases field@.len() - offset,
        {
            image.set(index * 65 + offset, field[offset]);
            offset = offset + 1;
        }
        index = index + 1;
    }
    assert(image@ =~= utsname_image());
    match memory.write(address, image.as_slice()) {
        Ok(()) => Ok(()),
        Err(_) => Err(Errno::Fault),
    }
}

/// One entry of an `iovec` array: where the data is and how much of it.
#[derive(Debug, Clone, Copy, PartialEq, Eq, Structural)]
pub struct IoVec {
    /// Guest address of the buffer.
    pub base: u64,
    /// Bytes in the buffer.
    pub len: u64,
}

/// The `count`-byte little-endian number `memory` holds at `address`.
pub open spec fn word_at<M: Memory>(memory: M, address: int, count: nat) -> u64 {
    little_endian(Seq::new(count, |i: int| memory.byte_at(address + i))) as u64
}

/// Reads the `index`th `struct iovec` of an array at `address`: the buffer's
/// address, then its length, eight bytes each.
pub fn read_iovec<M: Memory>(memory: &M, address: u64, index: u64) -> (r: Result<IoVec, Errno>)
    requires
        address + index * IOVEC_BYTES + IOVEC_BYTES <= u64::MAX,
    ensures
        r is Ok <==> memory.covers((address + index * IOVEC_BYTES) as u64, 8)
            && memory.covers((address + index * IOVEC_BYTES + 8) as u64, 8),
        r matches Ok(vector) ==> vector == (IoVec {
            base: word_at(*memory, address + index * IOVEC_BYTES, 8),
            len: word_at(*memory, address + index * IOVEC_BYTES + 8, 8),
        }),
        r is Err ==> r == Err::<IoVec, Errno>(Errno::Fault),
{
    let entry = address + index * IOVEC_BYTES;
    let base = match memory.read_uint(entry, 8) {
        Ok(value) => value,
        Err(_) => return Err(Errno::Fault),
    };
    let len = match memory.read_uint(entry + 8, 8) {
        Ok(value) => value,
        Err(_) => return Err(Errno::Fault),
    };
    Ok(IoVec { base, len })
}

/// Writes a `struct timespec` of `nanos` since the epoch: whole seconds at
/// `address`, the nanosecond remainder eight bytes on.
///
/// Either store can fault: the seconds may then already be written.
pub fn write_timespec<M: Memory>(memory: &mut M, address: u64, nanos: u64) -> (r: SysResult)
    requires
        address + 16 <= u64::MAX,
    ensures
        r is Ok <==> old(memory).covers(address, 8) && old(memory).covers((address + 8) as u64, 8),
        r is Ok ==> r == Ok::<u64, Errno>(0) && holds_after(
            *final(memory),
            *old(memory),
            address,
            le_bytes((nanos / 1_000_000_000) as nat, 8) + le_bytes((nanos % 1_000_000_000) as nat, 8),
        ),
        r is Err ==> r == Err::<u64, Errno>(Errno::Fault),
{
    let ghost before = *memory;
    match memory.write_uint(address, 8, nanos / 1_000_000_000) {
        Ok(()) => {},
        Err(_) => return Err(Errno::Fault),
    }
    let ghost middle = *memory;
    match memory.write_uint(address + 8, 8, nanos % 1_000_000_000) {
        Ok(()) => {},
        Err(_) => return Err(Errno::Fault),
    }
    proof {
        crate::interp::memory::lemma_le_bytes_round_trip((nanos / 1_000_000_000) as nat, 8);
        crate::interp::memory::lemma_le_bytes_round_trip((nanos % 1_000_000_000) as nat, 8);
        let whole = le_bytes((nanos / 1_000_000_000) as nat, 8) + le_bytes((nanos % 1_000_000_000) as nat, 8);
        assert forall|a: int| #[trigger] memory.byte_at(a) == (if address <= a < address + whole.len() {
            whole[a - address]
        } else {
            before.byte_at(a)
        }) by {
        }
    }
    Ok(0)
}

} // verus!
