//! The decoded-instruction cache.
//!
//! Decoding an A64 word is a chain of bit-field tests through a group decoder;
//! a warm loop should pay that once per instruction, not once per iteration.
//!
//! Direct-mapped and tagged by the full 32-bit encoding rather than by PC.
//! Tagging by encoding is what makes the cache correct without invalidation:
//! if the bytes at a PC change, the tag no longer matches and the entry is
//! re-decoded.
use vstd::prelude::*;
use crate::decode::{decode, spec_decode, unallocated, Instruction};

verus! {

/// Entries in the cache. A power of two so indexing is a mask.
///
/// 4096 entries covers a 16 KiB instruction footprint, comfortably more than
/// the hot loop of a libc `memcpy`.
pub const DECODE_CACHE_ENTRIES: usize = 4096;

/// The encoding that means "this slot holds nothing".
///
/// `UDF #0`, architecturally permanently undefined, so a real guest word can
/// never collide with it; if one somehow did, the miss path would decode it to
/// the same unallocated instruction anyway.
const EMPTY_TAG: u32 = 0x0000_0000;

/// The slot an instruction at `pc` lives in: instructions are 4-byte aligned,
/// so the low two bits carry nothing.
pub open spec fn slot_of(pc: u64) -> int {
    (pc as int / 4) % (DECODE_CACHE_ENTRIES as int)
}

/// Direct-mapped cache of decoded instructions.
#[derive(Debug, Clone)]
pub struct DecodeCache {
    tags: [u32; DECODE_CACHE_ENTRIES],
    entries: [Instruction; DECODE_CACHE_ENTRIES],
    hits: u64,
    misses: u64,
}

impl DecodeCache {
    /// Every slot holds the decoding of its tag, and every decoding names only
    /// registers with storage.
    pub closed spec fn well_formed(&self) -> bool {
        forall|i: int| 0 <= i < DECODE_CACHE_ENTRIES ==> {
            &&& #[trigger] self.entries@[i] == spec_decode(self.tags@[i])
            &&& self.entries@[i].operands_valid()
        }
    }

    /// The encoding slot `slot` is tagged with.
    pub closed spec fn tag_at(&self, slot: int) -> u32 {
        self.tags@[slot]
    }

    /// Lookups served without decoding so far.
    pub closed spec fn hit_count(&self) -> u64 {
        self.hits
    }

    /// Lookups that had to decode so far.
    pub closed spec fn miss_count(&self) -> u64 {
        self.misses
    }

    /// Whether a lookup of `encoding` at `pc` is served from the cache.
    pub open spec fn hits_on(&self, pc: u64, encoding: u32) -> bool {
        self.tag_at(slot_of(pc)) == encoding && encoding != 0
    }

    /// Whether `self` is what a lookup of `encoding` at `pc` leaves of
    /// `before`: the slot of `pc` is tagged with `encoding`, every other slot
    /// keeps its tag, and the lookup counts as a hit when it was served from
    /// the cache and as a miss otherwise.
    pub open spec fn looked_up(&self, before: DecodeCache, pc: u64, encoding: u32) -> bool {
        &&& self.tag_at(slot_of(pc)) == encoding
        &&& forall|i: int| 0 <= i < DECODE_CACHE_ENTRIES && i != slot_of(pc)
            ==> #[trigger] self.tag_at(i) == before.tag_at(i)
        &&& self.hit_count() == before.hit_count() + (if before.hits_on(pc, encoding) { 1int } else { 0 })
        &&& self.miss_count() == before.miss_count() + (if before.hits_on(pc, encoding) { 0int } else { 1 })
    }

    /// An empty cache.
    pub fn new() -> (r: DecodeCache)
        ensures
            r.well_formed(),
            r.hit_count() == 0,
            r.miss_count() == 0,
            forall|i: int| 0 <= i < DECODE_CACHE_ENTRIES ==> #[trigger] r.tag_at(i) == 0,
    {
        let empty = unallocated(EMPTY_TAG);
        let r = DecodeCache {
            tags: [EMPTY_TAG; DECODE_CACHE_ENTRIES],
            entries: [empty; DECODE_CACHE_ENTRIES],
            hits: 0,
            misses: 0,
        };
        proof { crate::decode::lemma_zero_word_is_unallocated(); }
        r
    }

    /// The decoded form of `encoding`, decoding it on a miss.
    ///
    /// `pc` selects the slot; the encoding is the tag. Two PCs holding the same
    /// word decode identically, so a collision between them costs nothing but a
    /// re-decode.
    pub fn decoded(&mut self, pc: u64, encoding: u32) -> (r: Instruction)
        requires
            old(self).well_formed(),
            old(self).hit_count() < u64::MAX,
            old(self).miss_count() < u64::MAX,
        ensures
            final(self).well_formed(),
            r == spec_decode(encoding),
            r.operands_valid(),
            final(self).looked_up(*old(self), pc, encoding),
    {
        let slot = Self::slot(pc);
        if self.tags[slot] == encoding && encoding != EMPTY_TAG {
            self.hits = self.hits + 1;
            assert(self.entries@[slot as int] == spec_decode(self.tags@[slot as int]));
            return self.entries[slot];
        }

        self.misses = self.misses + 1;
        let insn = decode(encoding);
        self.tags[slot] = encoding;
        self.entries[slot] = insn;
        insn
    }

    /// Lookups served without decoding.
    pub fn hits(&self) -> (r: u64)
        ensures
            r == self.hit_count(),
    {
        self.hits
    }

    /// Lookups that had to decode.
    pub fn misses(&self) -> (r: u64)
        ensures
            r == self.miss_count(),
    {
        self.misses
    }

    fn slot(pc: u64) -> (r: usize)
        ensures
            r == slot_of(pc),
            r < DECODE_CACHE_ENTRIES,
    {
        assert((pc >> 2u64) & 4095u64 == (pc / 4) % 4096) by (bit_vector);
        ((pc >> 2u64) & 4095u64) as usize
    }
}

impl Default for DecodeCache {
    fn default() -> (r: DecodeCache)
        ensures
            r.well_formed(),
            r.hit_count() == 0,
            r.miss_count() == 0,
    {
        DecodeCache::new()
    }
}

/// Whether `caches` is a run of lookups: the `i`th, of `encodings[i]` at
/// `pcs[i]`, takes `caches[i]` to `caches[i + 1]`.
pub open spec fn is_lookup_run(caches: Seq<DecodeCache>, pcs: Seq<u64>, encodings: Seq<u32>) -> bool {
    &&& caches.len() == pcs.len() + 1
    &&& encodings.len() == pcs.len()
    &&& forall|i: int| 0 <= i < pcs.len() ==> #[trigger] caches[i + 1].looked_up(caches[i], pcs[i], encodings[i])
}

/// After lookup `earlier`, the slot of its pc keeps its encoding as long as
/// no later lookup (up to `k`) falls in the same slot.
proof fn lemma_slot_kept(caches: Seq<DecodeCache>, pcs: Seq<u64>, encodings: Seq<u32>, earlier: int, k: int)
    requires
        is_lookup_run(caches, pcs, encodings),
        0 <= earlier < k <= pcs.len(),
        forall|m: int| earlier < m < k ==> slot_of(#[trigger] pcs[m]) != slot_of(pcs[earlier]),
    ensures
        caches[k].tag_at(slot_of(pcs[earlier])) == encodings[earlier],
    decreases k - earlier,
{
    if k == earlier + 1 {
        assert(caches[earlier + 1].looked_up(caches[earlier], pcs[earlier], encodings[earlier]));
    } else {
        lemma_slot_kept(caches, pcs, encodings, earlier, k - 1);
        assert(caches[(k - 1) + 1].looked_up(caches[k - 1], pcs[k - 1], encodings[k - 1]));
        assert(slot_of(pcs[k - 1]) != slot_of(pcs[earlier]));
        assert(0 <= slot_of(pcs[earlier]) < DECODE_CACHE_ENTRIES);
    }
}

/// A lookup hits exactly when the latest earlier lookup in its slot asked
/// for the same encoding, and that encoding is not zero: along any run of
/// lookups, if lookup `earlier` is the last before `later` whose pc shares
/// the slot of `later`'s, `later` counts one hit when it asks for the same
/// non-zero encoding and one miss otherwise. A zero word always misses.
pub proof fn lemma_repeated_lookup_hits(
    caches: Seq<DecodeCache>,
    pcs: Seq<u64>,
    encodings: Seq<u32>,
    earlier: int,
    later: int,
)
    requires
        is_lookup_run(caches, pcs, encodings),
        0 <= earlier < later < pcs.len(),
        slot_of(pcs[earlier]) == slot_of(pcs[later]),
        forall|m: int| earlier < m < later ==> slot_of(#[trigger] pcs[m]) != slot_of(pcs[later]),
    ensures
        ({
            let hit = encodings[later] == encodings[earlier] && encodings[later] != 0;
            &&& caches[later + 1].hit_count() == caches[later].hit_count() + (if hit { 1int } else { 0 })
            &&& caches[later + 1].miss_count() == caches[later].miss_count() + (if hit { 0int } else { 1 })
        }),
{
    lemma_slot_kept(caches, pcs, encodings, earlier, later);
    assert(caches[later + 1].looked_up(caches[later], pcs[later], encodings[later]));
}

/// Repeating one lookup counts one miss at most: `count` lookups of the same
/// non-zero encoding at one pc add `count - 1` hits, plus one more hit and
/// no miss if the first was already served from the cache, or one miss if it
/// was not. From an empty cache, a hundred lookups make one miss and ninety-
/// nine hits.
pub proof fn lemma_repeated_lookups_count(
    caches: Seq<DecodeCache>,
    pcs: Seq<u64>,
    encodings: Seq<u32>,
    pc: u64,
    encoding: u32,
)
    requires
        is_lookup_run(caches, pcs, encodings),
        pcs.len() >= 1,
        encoding != 0,
        forall|i: int| 0 <= i < pcs.len() ==> #[trigger] pcs[i] == pc && encodings[i] == encoding,
    ensures
        ({
            let first_hits = caches[0].hits_on(pc, encoding);
            &&& caches.last().hit_count() == caches[0].hit_count() + (pcs.len() - 1) + (if first_hits { 1int } else { 0 })
            &&& caches.last().miss_count() == caches[0].miss_count() + (if first_hits { 0int } else { 1 })
        }),
    decreases pcs.len(),
{
    let n = pcs.len() as int;
    assert(pcs[0] == pc && encodings[0] == encoding);
    assert(caches[0int + 1].looked_up(caches[0], pcs[0], encodings[0]));
    if n > 1 {
        let shorter = caches.take(n);
        lemma_repeated_lookups_count(shorter, pcs.take(n - 1), encodings.take(n - 1), pc, encoding);
        assert(pcs[n - 1] == pc && encodings[n - 1] == encoding);
        assert(pcs[n - 2] == pc && encodings[n - 2] == encoding);
        assert(caches[(n - 2) + 1].looked_up(caches[n - 2], pcs[n - 2], encodings[n - 2]));
        assert(caches[(n - 1) + 1].looked_up(caches[n - 1], pcs[n - 1], encodings[n - 1]));
        assert(shorter.last() == caches[n - 1]);
    }
}

} // verus!
