//! The storage the interpreter loads and stores against.
//!
//! [`crate::guest_memory`] fixes *where* guest RAM sits in linear memory but
//! owns no storage, so the interpreter needs a type that holds bytes. The
//! trait exists because a page-table-walking implementation replaces this one
//! later: the interpreter is written against the trait so that swap is not a
//! rewrite of every load and store.
//!
//! Addresses here are guest *virtual*, which at EL0 with the MMU off equal
//! guest physical.
use vstd::prelude::*;
use vstd::arithmetic::div_mod::lemma_mod_breakdown;
use crate::guest_memory::PHYS_RAM_BASE;

verus! {

/// Why an access could not be completed.
///
/// One variant: there are no permissions and no page tables, so the only way
/// to fail is to leave the mapped window.
#[derive(Debug, Clone, Copy, PartialEq, Eq, Structural)]
pub struct AccessFault {
    /// Virtual address the access targeted.
    pub address: u64,
    /// Whether the access was a write.
    pub is_write: bool,
}

/// `256^n`, the weight of byte `n` of a little-endian value.
pub open spec fn byte_weight(n: nat) -> nat
    decreases n,
{
    if n == 0 { 1 } else { 256 * byte_weight((n - 1) as nat) }
}

/// The number `bytes` spell least significant byte first.
pub open spec fn little_endian(bytes: Seq<u8>) -> nat
    decreases bytes.len(),
{
    if bytes.len() == 0 {
        0
    } else {
        bytes[0] as nat + 256 * little_endian(bytes.drop_first())
    }
}

/// The low `count` bytes of `value`, least significant first.
pub open spec fn le_bytes(value: nat, count: nat) -> Seq<u8>
    decreases count,
{
    if count == 0 {
        Seq::empty()
    } else {
        seq![(value % 256) as u8] + le_bytes(value / 256, (count - 1) as nat)
    }
}

/// `count` bytes of `value` spell back `value` modulo `256^count`.
pub proof fn lemma_le_bytes_round_trip(value: nat, count: nat)
    ensures
        le_bytes(value, count).len() == count,
        little_endian(le_bytes(value, count)) == value % byte_weight(count),
    decreases count,
{
    if count > 0 {
        lemma_le_bytes_round_trip(value / 256, (count - 1) as nat);
        lemma_byte_weight_positive((count - 1) as nat);
        let rest = le_bytes(value / 256, (count - 1) as nat);
        assert(le_bytes(value, count).drop_first() =~= rest);
        lemma_mod_breakdown(value as int, 256, byte_weight((count - 1) as nat) as int);
    }
}

/// The first `width` of `count` little-endian bytes of `value` are its
/// `width` little-endian bytes.
pub proof fn lemma_le_bytes_prefix(value: nat, count: nat, width: nat)
    requires
        width <= count,
    ensures
        le_bytes(value, count).take(width as int) == le_bytes(value, width),
    decreases width,
{
    lemma_le_bytes_round_trip(value, count);
    lemma_le_bytes_round_trip(value, width);
    if width > 0 {
        lemma_le_bytes_prefix(value / 256, (count - 1) as nat, (width - 1) as nat);
        lemma_le_bytes_round_trip(value / 256, (count - 1) as nat);
        assert(le_bytes(value, count).take(width as int) =~= le_bytes(value, width));
    } else {
        assert(le_bytes(value, count).take(0) =~= le_bytes(value, 0));
    }
}

/// A narrower read of a stored word gives its low bytes: where the eight
/// bytes from `address` hold `value` little-endian, as [`Memory::write_uint`]
/// leaves them, the first `width` of them read back, as
/// [`Memory::read_uint`] reads, as `value` modulo `256^width`.
pub proof fn lemma_narrow_read_after_write<M: Memory>(memory: M, address: u64, value: u64, width: nat)
    requires
        width <= 8,
        forall|a: int| address <= a < address + 8 ==> #[trigger] memory.byte_at(a) == le_bytes(value as nat, 8)[a - address],
    ensures
        little_endian(Seq::new(width, |i: int| memory.byte_at(address + i))) == (value as nat) % byte_weight(width),
{
    lemma_le_bytes_prefix(value as nat, 8, width);
    lemma_le_bytes_round_trip(value as nat, 8);
    lemma_le_bytes_round_trip(value as nat, width);
    let read = Seq::new(width, |i: int| memory.byte_at(address + i));
    assert forall|i: int| 0 <= i < width implies read[i] == le_bytes(value as nat, width)[i] by {
        assert(memory.byte_at(address + i) == le_bytes(value as nat, 8)[(address + i) - address]);
        assert(le_bytes(value as nat, 8).take(width as int)[i] == le_bytes(value as nat, 8)[i]);
    }
    assert(read =~= le_bytes(value as nat, width));
}

/// Every byte weight is positive.
pub proof fn lemma_byte_weight_positive(n: nat)
    ensures
        byte_weight(n) > 0,
    decreases n,
{
    if n > 0 {
        lemma_byte_weight_positive((n - 1) as nat);
    }
}

/// A little-endian number of `n` bytes is below `256^n`.
pub proof fn lemma_little_endian_bound(bytes: Seq<u8>)
    ensures
        little_endian(bytes) < byte_weight(bytes.len()),
    decreases bytes.len(),
{
    if bytes.len() > 0 {
        lemma_little_endian_bound(bytes.drop_first());
    }
}

/// The weight of the ninth byte is `2^64`.
pub proof fn lemma_byte_weight_eight()
    ensures
        byte_weight(8) == 0x1_0000_0000_0000_0000,
        byte_weight(4) == 0x1_0000_0000,
        byte_weight(2) == 0x1_0000,
        byte_weight(1) == 0x100,
{
    reveal_with_fuel(byte_weight, 9);
}

/// The `len` bytes of `memory` from `address`, in address order.
pub open spec fn window<M: Memory + ?Sized>(memory: &M, address: u64, len: nat) -> Seq<u8> {
    Seq::new(len, |i: int| memory.byte_at(address + i))
}

/// Whether `memory` maps exactly what `other` does.
pub open spec fn same_mapping<M: Memory + ?Sized>(memory: &M, other: &M) -> bool {
    forall|address: u64, len: nat| #[trigger] memory.covers(address, len) == other.covers(address, len)
}

/// Whether `memory` is `before` with `bytes` stored from `address`.
pub open spec fn stored<M: Memory + ?Sized>(memory: &M, before: &M, address: u64, bytes: Seq<u8>) -> bool {
    &&& same_mapping(memory, before)
    &&& forall|a: int| #[trigger] memory.byte_at(a) == (if address <= a < address + bytes.len() {
        bytes[a - address]
    } else {
        before.byte_at(a)
    })
}

/// Whether `memory` holds the same bytes as `before` everywhere.
pub open spec fn unchanged<M: Memory + ?Sized>(memory: &M, before: &M) -> bool {
    &&& same_mapping(memory, before)
    &&& forall|a: int| #[trigger] memory.byte_at(a) == before.byte_at(a)
}

/// Guest memory, as the interpreter sees it: a byte at every mapped address.
pub trait Memory {
    /// The byte stored at `address`.
    spec fn byte_at(&self, address: int) -> u8;

    /// Whether the `len` bytes from `address` are all mapped.
    spec fn covers(&self, address: u64, len: nat) -> bool;

    /// Reads `len` bytes from `address`, or faults when any is unmapped.
    fn read(&self, address: u64, len: usize) -> (r: Result<std::vec::Vec<u8>, AccessFault>)
        ensures
            r is Ok <==> self.covers(address, len as nat),
            r matches Ok(bytes) ==> bytes@ == Seq::new(len as nat, |i: int| self.byte_at(address + i)),
            r matches Err(fault) ==> fault == (AccessFault { address, is_write: false });

    /// Writes `bytes` from `address`, or faults and changes nothing when any is
    /// unmapped.
    fn write(&mut self, address: u64, bytes: &[u8]) -> (r: Result<(), AccessFault>)
        ensures
            r is Ok <==> old(self).covers(address, bytes@.len()),
            forall|a: u64, n: nat| #[trigger] final(self).covers(a, n) == old(self).covers(a, n),
            forall|a: int| #[trigger] final(self).byte_at(a) == (if r is Ok && address <= a < address + bytes@.len() {
                bytes@[a - address]
            } else {
                old(self).byte_at(a)
            }),
            r matches Err(fault) ==> fault == (AccessFault { address, is_write: true });

    /// Reads an unsigned integer of `width` bytes, little-endian.
    fn read_uint(&self, address: u64, width: u8) -> (r: Result<u64, AccessFault>)
        requires
            width <= 8,
        ensures
            r is Ok <==> self.covers(address, width as nat),
            r matches Ok(value) ==> value == little_endian(Seq::new(width as nat, |i: int| self.byte_at(address + i))),
            r matches Err(fault) ==> fault == (AccessFault { address, is_write: false }),
    {
        let bytes = match self.read(address, width as usize) {
            Ok(bytes) => bytes,
            Err(fault) => return Err(fault),
        };
        assert(bytes@.len() == width);
        assert(bytes@.subrange(width as int, width as int) =~= Seq::<u8>::empty());
        proof { lemma_byte_weight_eight(); }
        let mut value: u64 = 0;
        let mut index: usize = width as usize;
        while index > 0
            invariant
                index <= width <= 8,
                bytes@.len() == width,
                value == little_endian(bytes@.subrange(index as int, width as int)),
                value < byte_weight((width - index) as nat),
                byte_weight(8) == 0x1_0000_0000_0000_0000,
            decreases index,
        {
            let ghost tail = bytes@.subrange(index as int, width as int);
            index = index - 1;
            let ghost longer = bytes@.subrange(index as int, width as int);
            assert(longer.drop_first() =~= tail);
            proof {
                lemma_byte_weight_monotonic((width - index) as nat, 8);
            }
            value = value * 256 + bytes[index] as u64;
        }
        assert(bytes@.subrange(0, width as int) =~= bytes@);
        Ok(value)
    }

    /// Writes the low `width` bytes of `value`, little-endian.
    fn write_uint(&mut self, address: u64, width: u8, value: u64) -> (r: Result<(), AccessFault>)
        requires
            width <= 8,
        ensures
            r is Ok <==> old(self).covers(address, width as nat),
            forall|a: u64, n: nat| #[trigger] final(self).covers(a, n) == old(self).covers(a, n),
            forall|a: int| #[trigger] final(self).byte_at(a) == (if r is Ok && address <= a < address + width {
                le_bytes(value as nat, width as nat)[a - address]
            } else {
                old(self).byte_at(a)
            }),
            r matches Err(fault) ==> fault == (AccessFault { address, is_write: true }),
    {
        let bytes = le_bytes_of(value, width);
        proof { lemma_le_bytes_round_trip(value as nat, width as nat); }
        self.write(address, bytes.as_slice())
    }
}

/// `byte_weight` grows with its argument.
pub proof fn lemma_byte_weight_monotonic(a: nat, b: nat)
    requires
        a <= b,
    ensures
        byte_weight(a) <= byte_weight(b),
    decreases b,
{
    if a < b {
        lemma_byte_weight_monotonic(a, (b - 1) as nat);
        lemma_byte_weight_positive((b - 1) as nat);
    }
}

/// The low `width` bytes of `value`, least significant first.
pub fn le_bytes_of(value: u64, width: u8) -> (r: std::vec::Vec<u8>)
    ensures
        r@ == le_bytes(value as nat, width as nat),
{
    let mut bytes: std::vec::Vec<u8> = std::vec::Vec::new();
    let mut rest = value;
    let mut index: u8 = 0;
    while index < width
        invariant
            index <= width,
            le_bytes(value as nat, width as nat) == bytes@ + le_bytes(rest as nat, (width - index) as nat),
        decreases width - index,
    {
        let ghost before = bytes@;
        let ghost k = (width - index) as nat;
        assert(le_bytes(rest as nat, k) == seq![(rest % 256) as u8] + le_bytes((rest / 256) as nat, (k - 1) as nat));
        bytes.push((rest % 256) as u8);
        assert(before + le_bytes(rest as nat, k) =~= bytes@ + le_bytes((rest / 256) as nat, (k - 1) as nat));
        rest = rest / 256;
        index = index + 1;
    }
    assert(bytes@ + le_bytes(rest as nat, 0) =~= bytes@);
    bytes
}

/// A flat span of guest RAM starting at a base address.
///
/// Backed by a `Vec` rather than the linear-memory window
/// [`crate::guest_memory::reserve`] describes: the shim harness runs natively
/// as well as in wasm, and only the machine loop is in a position to own the
/// real window.
#[derive(Debug, Clone)]
pub struct FlatMemory {
    base: u64,
    bytes: std::vec::Vec<u8>,
}

impl FlatMemory {
    /// Lowest mapped address.
    pub closed spec fn start(&self) -> u64 {
        self.base
    }

    /// The mapped bytes, in address order.
    pub closed spec fn contents(&self) -> Seq<u8> {
        self.bytes@
    }

    /// Allocates `size` zeroed bytes mapped at [`PHYS_RAM_BASE`].
    pub fn new(size: usize) -> (r: FlatMemory)
        ensures
            r.start() == PHYS_RAM_BASE,
            r.contents().len() == size,
            forall|i: int| 0 <= i < size ==> r.contents()[i] == 0,
    {
        FlatMemory::at(PHYS_RAM_BASE, size)
    }

    /// Allocates `size` zeroed bytes mapped at `base`.
    pub fn at(base: u64, size: usize) -> (r: FlatMemory)
        ensures
            r.start() == base,
            r.contents().len() == size,
            forall|i: int| 0 <= i < size ==> r.contents()[i] == 0,
    {
        let mut bytes: std::vec::Vec<u8> = std::vec::Vec::new();
        let mut index: usize = 0;
        while index < size
            invariant
                index <= size,
                bytes@.len() == index,
                forall|i: int| 0 <= i < index ==> bytes@[i] == 0,
            decreases size - index,
        {
            bytes.push(0);
            index = index + 1;
        }
        FlatMemory { base, bytes }
    }

    /// Lowest mapped address.
    pub fn base(&self) -> (r: u64)
        ensures
            r == self.start(),
    {
        self.base
    }

    /// One past the highest mapped address.
    pub fn limit(&self) -> (r: u64)
        requires
            self.start() + self.contents().len() <= u64::MAX,
        ensures
            r == self.start() + self.contents().len(),
    {
        self.base + self.bytes.len() as u64
    }

    /// Copies `data` to `address`, for loading a program image or a stack.
    pub fn store_slice(&mut self, address: u64, data: &[u8]) -> (r: Result<(), AccessFault>)
        ensures
            r is Ok <==> old(self).covers(address, data@.len()),
            r is Ok ==> stored(final(self), old(self), address, data@),
            r matches Err(fault) ==> fault == (AccessFault { address, is_write: true })
                && unchanged(final(self), old(self)),
    {
        self.write(address, data)
    }

    /// A copy of the `len` bytes at `address`, for the shim's `write`-family
    /// calls.
    pub fn slice(&self, address: u64, len: usize) -> (r: Result<std::vec::Vec<u8>, AccessFault>)
        ensures
            r is Ok <==> self.covers(address, len as nat),
            r matches Ok(bytes) ==> bytes@ == window(self, address, len as nat),
            r matches Err(fault) ==> fault == (AccessFault { address, is_write: false }),
    {
        self.read(address, len)
    }

    /// Where in `bytes` an access of `len` bytes at `address` starts, or the
    /// fault it takes.
    fn offset(&self, address: u64, len: usize, is_write: bool) -> (r: Result<usize, AccessFault>)
        ensures
            r is Ok <==> self.covers(address, len as nat),
            r matches Ok(start) ==> start == address - self.base,
            r matches Err(fault) ==> fault == (AccessFault { address, is_write }),
    {
        let fault = AccessFault { address, is_write };
        if address < self.base {
            return Err(fault);
        }
        let start = address - self.base;
        if start > self.bytes.len() as u64 || len as u64 > self.bytes.len() as u64 - start {
            return Err(fault);
        }
        Ok(start as usize)
    }
}

impl Memory for FlatMemory {
    open spec fn byte_at(&self, address: int) -> u8 {
        if self.start() <= address < self.start() + self.contents().len() {
            self.contents()[address - self.start()]
        } else {
            0
        }
    }

    open spec fn covers(&self, address: u64, len: nat) -> bool {
        address >= self.start() && address - self.start() + len <= self.contents().len()
    }

    fn read(&self, address: u64, len: usize) -> (r: Result<std::vec::Vec<u8>, AccessFault>) {
        let start = match self.offset(address, len, false) {
            Ok(start) => start,
            Err(fault) => return Err(fault),
        };
        let total = self.bytes.len();
        let mut out: std::vec::Vec<u8> = std::vec::Vec::new();
        let mut index: usize = 0;
        while index < len
            invariant
                index <= len,
                total == self.bytes@.len(),
                start + len <= self.bytes@.len(),
                start == address - self.base,
                out@.len() == index,
                forall|i: int| 0 <= i < index ==> out@[i] == self.bytes@[start + i],
            decreases len - index,
        {
            out.push(self.bytes[start + index]);
            index = index + 1;
        }
        assert(out@ =~= Seq::new(len as nat, |i: int| self.byte_at(address + i)));
        Ok(out)
    }

    fn write(&mut self, address: u64, bytes: &[u8]) -> (r: Result<(), AccessFault>) {
        let start = match self.offset(address, bytes.len(), true) {
            Ok(start) => start,
            Err(fault) => return Err(fault),
        };
        let ghost initial = self.bytes@;
        let total = self.bytes.len();
        let mut index: usize = 0;
        while index < bytes.len()
            invariant
                index <= bytes@.len(),
                total == initial.len(),
                start + bytes@.len() <= initial.len(),
                start == address - self.base,
                self.base == old(self).base,
                initial == old(self).bytes@,
                self.bytes@.len() == initial.len(),
                forall|i: int| 0 <= i < self.bytes@.len() ==> self.bytes@[i] == (if start <= i < start + index {
                    bytes@[i - start]
                } else {
                    initial[i]
                }),
            decreases bytes@.len() - index,
        {
            self.bytes.set(start + index, bytes[index]);
            index = index + 1;
        }
        Ok(())
    }
}

} // verus!
