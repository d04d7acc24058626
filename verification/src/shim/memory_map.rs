//! The guest's `brk` heap and `mmap` arena.
//!
//! A bump allocator over two fixed windows, not a page table. The only property
//! that matters is that a static musl binary's allocator gets back distinct,
//! aligned, writable addresses that stay inside guest RAM.
//!
//! `munmap` therefore returns success without reclaiming anything. A process
//! that maps and unmaps in a loop would exhaust the arena.
use vstd::prelude::*;
use crate::guest_memory::PAGE_SIZE;

verus! {

/// Layout of the two windows the shim hands out.
#[derive(Debug, Clone, Copy, PartialEq, Eq, Structural)]
pub struct ArenaLayout {
    /// First address `brk` can return.
    pub heap_base: u64,
    /// One past the last address `brk` can return.
    pub heap_limit: u64,
    /// First address `mmap` can return.
    pub mmap_base: u64,
    /// One past the last address `mmap` can return.
    pub mmap_limit: u64,
}

/// The guest's heap and anonymous-mapping arena.
#[derive(Debug, Clone, Copy, PartialEq, Eq, Structural)]
pub struct MemoryMap {
    layout: ArenaLayout,
    brk: u64,
    mmap_next: u64,
}

/// `length` rounded up to a whole number of pages.
pub open spec fn page_rounded(length: u64) -> int {
    ((length as int + PAGE_SIZE - 1) / PAGE_SIZE as int) * PAGE_SIZE
}

impl MemoryMap {
    /// The windows this map hands out from.
    pub closed spec fn arena(&self) -> ArenaLayout {
        self.layout
    }

    /// The current program break.
    pub closed spec fn current_brk(&self) -> u64 {
        self.brk
    }

    /// The next address a mapping would be placed at.
    pub closed spec fn next_mapping(&self) -> u64 {
        self.mmap_next
    }

    /// Whether `self` is what `map(length)` leaves of `before`, answering
    /// `r`: the windows and the break stay; a non-zero length that fits below
    /// the mmap limit, rounded up to whole pages, is placed at the next
    /// mapping, which moves past it; anything else is `None` and changes
    /// nothing.
    pub open spec fn mapped(self, before: MemoryMap, length: u64, r: Option<u64>) -> bool {
        &&& self.arena() == before.arena()
        &&& self.current_brk() == before.current_brk()
        &&& r is Some <==> length != 0 && before.next_mapping() + page_rounded(length) <= before.arena().mmap_limit
        &&& r matches Some(base) ==> base == before.next_mapping()
            && self.next_mapping() == before.next_mapping() + page_rounded(length)
        &&& r is None ==> self == before
    }

    /// The map over `layout` nothing has been taken from yet.
    pub closed spec fn new_spec(layout: ArenaLayout) -> MemoryMap {
        MemoryMap { layout, brk: layout.heap_base, mmap_next: layout.mmap_base }
    }

    /// A map over `layout`, with `brk` at the base of the heap window.
    pub fn new(layout: ArenaLayout) -> (r: MemoryMap)
        ensures
            r == MemoryMap::new_spec(layout),
            r.arena() == layout,
            r.current_brk() == layout.heap_base,
            r.next_mapping() == layout.mmap_base,
    {
        MemoryMap { layout, brk: layout.heap_base, mmap_next: layout.mmap_base }
    }

    /// The current program break.
    pub fn brk(&self) -> (r: u64)
        ensures
            r == self.current_brk(),
    {
        self.brk
    }

    /// Moves the program break, returning where it ended up.
    ///
    /// Linux's `brk` reports the *current* break on failure rather than an
    /// error, and musl relies on that to detect a refusal, so a request outside
    /// the heap window leaves the break where it was.
    pub fn set_brk(&mut self, requested: u64) -> (r: u64)
        ensures
            final(self).arena() == old(self).arena(),
            final(self).next_mapping() == old(self).next_mapping(),
            final(self).current_brk() == (if old(self).arena().heap_base <= requested <= old(self).arena().heap_limit {
                requested
            } else {
                old(self).current_brk()
            }),
            r == final(self).current_brk(),
    {
        let is_in_window = requested >= self.layout.heap_base && requested <= self.layout.heap_limit;
        if is_in_window {
            self.brk = requested;
        }
        self.brk
    }

    /// Reserves `length` bytes, rounded up to whole pages, returning the base
    /// address.
    ///
    /// `None` when the length is zero or the arena has no room left, which the
    /// caller reports as `ENOMEM`; the arena is then unchanged.
    pub fn map(&mut self, length: u64) -> (r: Option<u64>)
        ensures
            final(self).mapped(*old(self), length, r),
    {
        if length == 0 {
            return None;
        }
        let pages = length / PAGE_SIZE as u64 + if length % PAGE_SIZE as u64 == 0 { 0 } else { 1 };
        assert(pages == (length as int + PAGE_SIZE - 1) / PAGE_SIZE as int);
        if pages > u64::MAX / PAGE_SIZE as u64 {
            assert(page_rounded(length) > u64::MAX) by (nonlinear_arith)
                requires pages > u64::MAX / 4096, page_rounded(length) == pages * 4096;
            return None;
        }
        let size = pages * PAGE_SIZE as u64;
        if size > u64::MAX - self.mmap_next {
            return None;
        }
        let end = self.mmap_next + size;
        if end > self.layout.mmap_limit {
            return None;
        }

        let base = self.mmap_next;
        self.mmap_next = end;
        Some(base)
    }
}

/// Whether `maps` is a run of `map` calls: the `i`th call, asked for
/// `lengths[i]`, takes `maps[i]` to `maps[i + 1]` and answers `answers[i]`.
pub open spec fn is_mapping_run(maps: Seq<MemoryMap>, lengths: Seq<u64>, answers: Seq<Option<u64>>) -> bool {
    &&& maps.len() == lengths.len() + 1
    &&& answers.len() == lengths.len()
    &&& forall|i: int| 0 <= i < lengths.len() ==> #[trigger] maps[i + 1].mapped(maps[i], lengths[i], answers[i])
}

/// The next mapping stays page-aligned: along any run of `map` calls from a
/// map whose next mapping is page-aligned and inside its window, every map
/// keeps the window, has a page-aligned next mapping inside the window, and
/// the next mapping never moves back.
pub proof fn lemma_run_keeps_alignment(maps: Seq<MemoryMap>, lengths: Seq<u64>, answers: Seq<Option<u64>>, k: int)
    requires
        is_mapping_run(maps, lengths, answers),
        (maps[0].next_mapping() as int) % (PAGE_SIZE as int) == 0,
        maps[0].next_mapping() <= maps[0].arena().mmap_limit,
        0 <= k < maps.len(),
    ensures
        maps[k].arena() == maps[0].arena(),
        (maps[k].next_mapping() as int) % (PAGE_SIZE as int) == 0,
        maps[k].next_mapping() <= maps[k].arena().mmap_limit,
        forall|m: int| 0 <= m <= k ==> #[trigger] maps[m].next_mapping() <= maps[k].next_mapping(),
    decreases k,
{
    if k > 0 {
        lemma_run_keeps_alignment(maps, lengths, answers, k - 1);
        assert(maps[(k - 1) + 1].mapped(maps[k - 1], lengths[k - 1], answers[k - 1]));
        lemma_page_rounded_is_pages(lengths[k - 1]);
        assert forall|m: int| 0 <= m <= k implies #[trigger] maps[m].next_mapping() <= maps[k].next_mapping() by {
            if m < k {
                assert(maps[m].next_mapping() <= maps[k - 1].next_mapping());
            }
        }
    }
}

/// Mappings are page-aligned and never overlap: along any run of `map`
/// calls from a map whose next mapping is page-aligned and inside its window
/// (a fresh map over a page-aligned mmap window is one), every mapping
/// returned is page-aligned, ends inside the window, and starts at or past
/// the end of the pages of every mapping returned before it.
pub proof fn lemma_mappings_aligned_and_disjoint(
    maps: Seq<MemoryMap>,
    lengths: Seq<u64>,
    answers: Seq<Option<u64>>,
    earlier: int,
    later: int,
)
    requires
        is_mapping_run(maps, lengths, answers),
        (maps[0].next_mapping() as int) % (PAGE_SIZE as int) == 0,
        maps[0].next_mapping() <= maps[0].arena().mmap_limit,
        0 <= earlier < later < lengths.len(),
        answers[earlier] is Some,
        answers[later] is Some,
    ensures
        (answers[earlier]->0 as int) % (PAGE_SIZE as int) == 0,
        (answers[later]->0 as int) % (PAGE_SIZE as int) == 0,
        answers[later]->0 >= answers[earlier]->0 + page_rounded(lengths[earlier]),
        answers[later]->0 + page_rounded(lengths[later]) <= maps[0].arena().mmap_limit,
{
    lemma_run_keeps_alignment(maps, lengths, answers, later);
    lemma_run_keeps_alignment(maps, lengths, answers, earlier);
    lemma_run_keeps_alignment(maps, lengths, answers, later + 1);
    assert(maps[earlier + 1].mapped(maps[earlier], lengths[earlier], answers[earlier]));
    assert(maps[later + 1].mapped(maps[later], lengths[later], answers[later]));
    assert(maps[earlier + 1].next_mapping() <= maps[later].next_mapping());
}

/// A page-rounded length is a whole number of pages, and no shorter.
proof fn lemma_page_rounded_is_pages(length: u64)
    ensures
        (page_rounded(length) as int) % (PAGE_SIZE as int) == 0,
        page_rounded(length) >= length,
{
    let pages = (length as int + PAGE_SIZE - 1) / PAGE_SIZE as int;
    assert(page_rounded(length) == pages * 4096);
    assert((pages * 4096) % 4096 == 0) by (nonlinear_arith);
    assert(pages * 4096 >= length) by (nonlinear_arith)
        requires pages == (length as int + 4095) / 4096;
}

} // verus!
