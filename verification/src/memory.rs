//! Physical memory bookkeeping over the firmware's memory map: the kernel heap gathered
//! from the conventional regions together, and a page allocator that walks the conventional
//! memory after it.
use vstd::prelude::*;

verus! {

/// Bytes in one page.
pub const PAGE_SIZE: u64 = 4096;
/// The firmware's memory type of free, conventional memory.
pub const CONVENTIONAL: u32 = 7;
/// Bytes of the kernel heap.
pub const HEAP_SIZE_BYTES: u64 = 67_108_864;
/// The most descriptors that the snapshot of the memory map keeps.
pub const MAX_MEMORY_DESCRIPTORS: usize = 512;

/// One region of the firmware's memory map.
#[derive(Clone, Copy, Debug, PartialEq, Eq)]
pub struct MemoryDescriptor {
    pub ty: u32,
    pub phys_start: u64,
    pub virt_start: u64,
    pub page_count: u64,
    pub att: u64,
}

/// The byte range of a conventional region with pages, unless its size or end overflows.
pub open spec fn region_bounds(d: MemoryDescriptor) -> Option<(u64, u64)> {
    if d.ty != CONVENTIONAL || d.page_count == 0 {
        None
    } else if d.page_count * PAGE_SIZE > u64::MAX {
        None
    } else if d.phys_start + d.page_count * PAGE_SIZE > u64::MAX {
        None
    } else {
        Some((d.phys_start, (d.phys_start + d.page_count * PAGE_SIZE) as u64))
    }
}

pub fn conventional_region_bounds(desc: &MemoryDescriptor) -> (r: Option<(u64, u64)>)
    ensures
        r == region_bounds(*desc),
{
    if desc.ty != CONVENTIONAL || desc.page_count == 0 {
        return None;
    }
    let byte_len = match desc.page_count.checked_mul(PAGE_SIZE) {
        Some(b) => b,
        None => {
            return None;
        },
    };
    let region_end = match desc.phys_start.checked_add(byte_len) {
        Some(e) => e,
        None => {
            return None;
        },
    };
    Some((desc.phys_start, region_end))
}

/// The first descriptor after `index` that bounds a conventional region: its position and
/// byte range.
pub open spec fn next_region_after(map: Seq<MemoryDescriptor>, from: int) -> Option<(int, u64, u64)>
    decreases map.len() - from,
{
    if from < 0 || from >= map.len() {
        None
    } else {
        match region_bounds(map[from]) {
            Some((s, e)) => Some((from, s, e)),
            None => next_region_after(map, from + 1),
        }
    }
}

pub proof fn lemma_next_region_after(map: Seq<MemoryDescriptor>, from: int)
    ensures
        next_region_after(map, from) matches Some((j, s, e)) ==> from <= j < map.len()
            && region_bounds(map[j]) == Some((s, e)) && s + PAGE_SIZE <= e,
    decreases map.len() - from,
{
    if 0 <= from < map.len() && region_bounds(map[from]) is None {
        lemma_next_region_after(map, from + 1);
    }
}

/// The region the allocator moves to is the first conventional region from `from` on, in map
/// order: it is conventional, and every descriptor between `from` and it is not. Where there
/// is none, no descriptor from `from` on is conventional.
pub proof fn lemma_next_region_is_first(map: Seq<MemoryDescriptor>, from: int)
    requires
        0 <= from,
    ensures
        next_region_after(map, from) matches Some((j, s, e)) ==> from <= j < map.len()
            && region_bounds(map[j]) == Some((s, e)),
        next_region_after(map, from) matches Some((j, s, e)) ==> forall|k: int|
            from <= k < j ==> #[trigger] region_bounds(map[k]) is None,
        next_region_after(map, from) is None ==> forall|k: int|
            from <= k < map.len() ==> #[trigger] region_bounds(map[k]) is None,
    decreases map.len() - from,
{
    if from < map.len() {
        lemma_next_region_is_first(map, from + 1);
    }
}

/// The allocator runs dry only when it must: where it hands out nothing, no page is left in
/// its region after the cursor and no conventional region follows its region.
pub proof fn lemma_allocate_none_only_when_exhausted(map: Seq<MemoryDescriptor>, st: PmmState)
    requires
        0 <= st.0 < map.len(),
        st.1 <= st.2,
    ensures
        allocate_spec(map, st).0 is None ==> st.1 + PAGE_SIZE > st.2 && forall|k: int|
            st.0 < k < map.len() ==> #[trigger] region_bounds(map[k]) is None,
        st.1 + PAGE_SIZE <= st.2 ==> allocate_spec(map, st).0 == Some(st.1),
{
    lemma_next_region_is_first(map, st.0 + 1);
    lemma_next_region_after(map, st.0 + 1);
    if st.1 + PAGE_SIZE > st.2 {
        match next_region_after(map, st.0 + 1) {
            None => {},
            Some((j, s, e)) => {
                lemma_allocate_spec(map, (j, s, e));
            },
        }
    }
}

/// A bump allocator over the conventional regions of the memory map, from the heap's end on.
pub struct PhysicalMemoryManager {
    current_descriptor_index: usize,
    next_free_phys_addr: u64,
    current_region_end: u64,
}

/// The allocator's position: region index, next free address, end of the region.
pub type PmmState = (int, u64, u64);

/// The page that an allocation hands out from `st`, and the position after it: a page of the
/// current region while one fits, else the first page of the next conventional region; when
/// no region is left, nothing and the position unchanged.
pub open spec fn allocate_spec(map: Seq<MemoryDescriptor>, st: PmmState) -> (Option<u64>, PmmState)
    decreases map.len() - st.0,
{
    if st.1 + PAGE_SIZE <= st.2 {
        (Some(st.1), (st.0, (st.1 + PAGE_SIZE) as u64, st.2))
    } else {
        match next_region_after(map, st.0 + 1) {
            None => (None, st),
            Some((j, s, e)) => {
                proof {
                    lemma_next_region_after(map, st.0 + 1);
                }
                allocate_spec(map, (j, s, e))
            },
        }
    }
}

/// An allocation hands out the page just below the new cursor, which stays inside its
/// region; the region index never moves back, and a move to a later region starts at that
/// region's first page. When nothing is handed out the position is unchanged.
pub proof fn lemma_allocate_spec(map: Seq<MemoryDescriptor>, st: PmmState)
    requires
        0 <= st.0 < map.len(),
        st.1 <= st.2,
    ensures
        ({
            let (r, st2) = allocate_spec(map, st);
            &&& r is None ==> st2 == st
            &&& r matches Some(a) ==> {
                &&& st2.1 == a + PAGE_SIZE
                &&& st2.1 <= st2.2
                &&& st.0 <= st2.0 < map.len()
                &&& st2.0 == st.0 ==> st2.2 == st.2 && a == st.1
                &&& st2.0 > st.0 ==> region_bounds(map[st2.0]) == Some((a, st2.2))
            }
        }),
    decreases map.len() - st.0,
{
    if st.1 + PAGE_SIZE <= st.2 {
    } else {
        lemma_next_region_after(map, st.0 + 1);
        match next_region_after(map, st.0 + 1) {
            None => {},
            Some((j, s, e)) => {
                lemma_allocate_spec(map, (j, s, e));
            },
        }
    }
}

impl PhysicalMemoryManager {
    pub closed spec fn state(&self) -> PmmState {
        (self.current_descriptor_index as int, self.next_free_phys_addr, self.current_region_end)
    }

    /// The position is a region of `map` and lies inside it.
    pub open spec fn wf(&self, map: Seq<MemoryDescriptor>) -> bool {
        &&& 0 <= self.state().0 < map.len()
        &&& self.state().1 <= self.state().2
    }

    /// An allocator whose next page is at `next_free_phys_addr` in region `index`.
    pub fn new(index: usize, next_free_phys_addr: u64, current_region_end: u64) -> (r: Self)
        ensures
            r.state() == (index as int, next_free_phys_addr, current_region_end),
    {
        PhysicalMemoryManager {
            current_descriptor_index: index,
            next_free_phys_addr,
            current_region_end,
        }
    }

    /// Hands out the next free page, moving on to later conventional regions as needed.
    pub fn allocate_page(&mut self, map: &[MemoryDescriptor]) -> (r: Option<u64>)
        requires
            old(self).wf(map@),
        ensures
            final(self).wf(map@),
            (r, final(self).state()) == allocate_spec(map@, old(self).state()),
    {
        loop
            invariant
                self.wf(map@),
                allocate_spec(map@, old(self).state()) == allocate_spec(map@, self.state()),
            decreases map@.len() - self.current_descriptor_index,
        {
            if self.current_region_end - self.next_free_phys_addr >= PAGE_SIZE {
                let addr = self.next_free_phys_addr;
                self.next_free_phys_addr = self.next_free_phys_addr + PAGE_SIZE;
                return Some(addr);
            }
            let ghost before = self.state();
            proof {
                lemma_next_region_after(map@, before.0 + 1);
            }
            if !self.advance_to_next_region(map) {
                return None;
            }
        }
    }

    /// Moves to the first conventional region after the current one; `false` when there is
    /// none, leaving the position as it was.
    fn advance_to_next_region(&mut self, map: &[MemoryDescriptor]) -> (found: bool)
        requires
            old(self).wf(map@),
        ensures
            final(self).wf(map@),
            match next_region_after(map@, old(self).state().0 + 1) {
                Some((j, s, e)) => found && final(self).state() == (j, s, e),
                None => !found && final(self).state() == old(self).state(),
            },
    {
        let n = map.len();
        let mut index = self.current_descriptor_index + 1;
        proof {
            lemma_next_region_after(map@, index as int);
        }
        while index < map.len()
            invariant
                self == old(self),
                self.wf(map@),
                self.current_descriptor_index < index <= map@.len(),
                next_region_after(map@, old(self).state().0 + 1) == next_region_after(map@, index as int),
            decreases map.len() - index,
        {
            match conventional_region_bounds(&map[index]) {
                Some((start, end)) => {
                    proof {
                        lemma_next_region_after(map@, index as int);
                    }
                    self.current_descriptor_index = index;
                    self.next_free_phys_addr = start;
                    self.current_region_end = end;
                    return true;
                },
                None => {
                    index += 1;
                },
            }
        }
        false
    }
}

/// Hands out a page from the allocator, if there is one.
pub fn allocate_page(pmm: &mut Option<PhysicalMemoryManager>, map: &[MemoryDescriptor]) -> (r: Option<u64>)
    requires
        *old(pmm) matches Some(p) ==> p.wf(map@),
    ensures
        *old(pmm) is None ==> r is None && *final(pmm) is None,
        *old(pmm) matches Some(p) ==> *final(pmm) matches Some(q) && q.wf(map@) && (r, q.state())
            == allocate_spec(map@, p.state()),
{
    match pmm {
        Some(p) => p.allocate_page(map),
        None => None,
    }
}

/// Sum of the page counts of the conventional regions among the first `k` descriptors.
pub open spec fn conventional_pages_in(map: Seq<MemoryDescriptor>, k: int) -> nat
    decreases k,
{
    if k <= 0 {
        0
    } else {
        conventional_pages_in(map, k - 1) + match region_bounds(map[k - 1]) {
            Some(_) => map[k - 1].page_count as nat,
            None => 0,
        }
    }
}

/// Sum of the page counts of the conventional regions from descriptor `i` on.
pub open spec fn conventional_pages_from(map: Seq<MemoryDescriptor>, i: int) -> nat
    decreases map.len() - i,
{
    if i < 0 || i >= map.len() {
        0
    } else {
        (match region_bounds(map[i]) {
            Some(_) => map[i].page_count as nat,
            None => 0,
        }) + conventional_pages_from(map, i + 1)
    }
}

/// The conventional pages before descriptor `k` and those from it on make up all of them.
pub proof fn lemma_conventional_pages_split(map: Seq<MemoryDescriptor>, k: int)
    requires
        0 <= k <= map.len(),
    ensures
        conventional_pages_in(map, k) + conventional_pages_from(map, k) == conventional_pages_from(
            map,
            0,
        ),
    decreases k,
{
    if k > 0 {
        lemma_conventional_pages_split(map, k - 1);
    }
}

/// One piece of the kernel heap: `len` bytes from `start`.
#[derive(Clone, Copy, Debug, PartialEq, Eq)]
pub struct HeapPiece {
    pub start: u64,
    pub len: u64,
}

/// The heap's pieces when it still needs `need` bytes from descriptor `i` on: the first bytes
/// of each conventional region in map order, as many as it holds or as are still needed.
pub open spec fn heap_pieces_from(map: Seq<MemoryDescriptor>, i: int, need: nat) -> Seq<HeapPiece>
    decreases map.len() - i,
{
    if need == 0 || i < 0 || i >= map.len() {
        Seq::empty()
    } else {
        match region_bounds(map[i]) {
            None => heap_pieces_from(map, i + 1, need),
            Some((s, e)) => {
                let take: nat = if e - s < need {
                    (e - s) as nat
                } else {
                    need
                };
                seq![HeapPiece { start: s, len: take as u64 }] + heap_pieces_from(
                    map,
                    i + 1,
                    (need - take) as nat,
                )
            },
        }
    }
}

/// Where the heap ends when it still needs `need` (more than zero) bytes from descriptor `i`
/// on: the region its last piece comes from, the address right after that piece, and the
/// region's end. None when the regions run out first.
pub open spec fn heap_end_from(map: Seq<MemoryDescriptor>, i: int, need: nat) -> Option<PmmState>
    decreases map.len() - i,
{
    if i < 0 || i >= map.len() {
        None
    } else {
        match region_bounds(map[i]) {
            None => heap_end_from(map, i + 1, need),
            Some((s, e)) => if need <= e - s {
                Some((i, (s + need) as u64, e))
            } else {
                heap_end_from(map, i + 1, (need - (e - s)) as nat)
            },
        }
    }
}

/// The total length of some heap pieces.
pub open spec fn pieces_len(pieces: Seq<HeapPiece>) -> nat
    decreases pieces.len(),
{
    if pieces.len() == 0 {
        0
    } else {
        pieces[0].len as nat + pieces_len(pieces.drop_first())
    }
}

proof fn lemma_pieces_len_cons(p: HeapPiece, rest: Seq<HeapPiece>)
    ensures
        pieces_len(seq![p] + rest) == p.len + pieces_len(rest),
{
    assert((seq![p] + rest).drop_first() =~= rest);
}

/// While the regions from `i` on hold the `need` bytes, the heap's pieces add up to them, and
/// its end leaves behind exactly the rest of those regions: the bytes after it in its region
/// and all the regions after that one.
pub proof fn lemma_heap_layout(map: Seq<MemoryDescriptor>, i: int, need: nat)
    requires
        0 <= i,
        0 < need <= conventional_pages_from(map, i) * PAGE_SIZE,
    ensures
        pieces_len(heap_pieces_from(map, i, need)) == need,
        heap_end_from(map, i, need) is Some,
        ({
            let (j, c, e) = heap_end_from(map, i, need)->0;
            let (s, e2) = region_bounds(map[j])->0;
            &&& i <= j < map.len()
            &&& region_bounds(map[j]) is Some
            &&& e2 == e
            &&& s <= c <= e
            &&& (e - c) + conventional_pages_from(map, j + 1) * PAGE_SIZE == conventional_pages_from(
                map,
                i,
            ) * PAGE_SIZE - need
        }),
    decreases map.len() - i,
{
    if i >= map.len() {
    } else {
        match region_bounds(map[i]) {
            None => {
                lemma_heap_layout(map, i + 1, need);
            },
            Some((s, e)) => {
                let take: nat = if e - s < need {
                    (e - s) as nat
                } else {
                    need
                };
                lemma_pieces_len_cons(
                    HeapPiece { start: s, len: take as u64 },
                    heap_pieces_from(map, i + 1, (need - take) as nat),
                );
                if need > e - s {
                    lemma_heap_layout(map, i + 1, (need - (e - s)) as nat);
                } else {
                    assert(heap_pieces_from(map, i + 1, 0) =~= Seq::<HeapPiece>::empty());
                }
            },
        }
    }
}

/// Past a descriptor whose later regions hold any pages, there is a next conventional region.
pub proof fn lemma_region_ahead(map: Seq<MemoryDescriptor>, i: int)
    requires
        0 <= i,
        conventional_pages_from(map, i) > 0,
    ensures
        next_region_after(map, i) is Some,
    decreases map.len() - i,
{
    if i < map.len() && region_bounds(map[i]) is None {
        lemma_region_ahead(map, i + 1);
    }
}

/// Where the conventional regions together hold at least the heap and one more page, the
/// page allocator that starts at the heap's end hands out a page.
pub proof fn lemma_page_after_heap(map: Seq<MemoryDescriptor>)
    requires
        conventional_pages_in(map, map.len() as int) * PAGE_SIZE >= HEAP_SIZE_BYTES + PAGE_SIZE,
    ensures
        heap_end_from(map, 0, HEAP_SIZE_BYTES as nat) matches Some(st) && allocate_spec(map, st).0 is Some,
{
    lemma_conventional_pages_split(map, map.len() as int);
    lemma_heap_layout(map, 0, HEAP_SIZE_BYTES as nat);
    let st = heap_end_from(map, 0, HEAP_SIZE_BYTES as nat)->0;
    if st.1 + PAGE_SIZE > st.2 {
        lemma_region_ahead(map, st.0 + 1);
        lemma_next_region_after(map, st.0 + 1);
        let (j, s, e) = next_region_after(map, st.0 + 1)->0;
        lemma_allocate_spec(map, (j, s, e));
    }
}

/// The first byte of a conventional region (zero for any other descriptor).
pub open spec fn region_start(d: MemoryDescriptor) -> u64 {
    match region_bounds(d) {
        Some((s, _)) => s,
        None => 0,
    }
}

/// The end of a conventional region (zero for any other descriptor).
pub open spec fn region_end(d: MemoryDescriptor) -> u64 {
    match region_bounds(d) {
        Some((_, e)) => e,
        None => 0,
    }
}

/// The conventional regions come in ascending order of address and do not overlap, as in a
/// sorted firmware memory map.
pub open spec fn regions_ascending(map: Seq<MemoryDescriptor>) -> bool {
    forall|i: int, j: int|
        0 <= i < j < map.len() && region_bounds(map[i]) is Some && region_bounds(map[j]) is Some
            ==> #[trigger] region_end(map[i]) <= #[trigger] region_start(map[j])
}

/// The allocator's position lies inside the conventional region it names, and its end is
/// that region's end.
pub open spec fn cursor_in_region(map: Seq<MemoryDescriptor>, st: PmmState) -> bool {
    &&& 0 <= st.0 < map.len()
    &&& region_bounds(map[st.0]) is Some
    &&& region_end(map[st.0]) == st.2
    &&& region_start(map[st.0]) <= st.1 <= st.2
}

/// Pages come out in ascending order, so no page is handed out twice: over a sorted map, a
/// page handed out lies at or above the allocator's position, and the position moves past it
/// while staying inside a region; every later page therefore lies above every earlier one.
/// Each page lies wholly inside a conventional region, so reserved, firmware and device
/// memory is never handed out.
pub proof fn lemma_allocation_order(map: Seq<MemoryDescriptor>, st: PmmState)
    requires
        regions_ascending(map),
        cursor_in_region(map, st),
    ensures
        ({
            let (r, st2) = allocate_spec(map, st);
            &&& r is None ==> st2 == st
            &&& r matches Some(a) ==> st.1 <= a && st2.1 == a + PAGE_SIZE && cursor_in_region(
                map,
                st2,
            ) && region_start(map[st2.0]) <= a && a + PAGE_SIZE <= region_end(map[st2.0])
        }),
{
    lemma_allocate_spec(map, st);
    let (r, st2) = allocate_spec(map, st);
    if r is Some && st2.0 > st.0 {
        assert(region_end(map[st.0]) <= region_start(map[st2.0]));
    }
}

/// The results of `n` allocations in a row from `st`, and the position after them.
pub open spec fn allocate_run(map: Seq<MemoryDescriptor>, st: PmmState, n: nat) -> (Seq<Option<u64>>, PmmState)
    decreases n,
{
    if n == 0 {
        (Seq::empty(), st)
    } else {
        let (r, st2) = allocate_spec(map, st);
        let (rest, last) = allocate_run(map, st2, (n - 1) as nat);
        (seq![r] + rest, last)
    }
}

/// A page handed out lies wholly inside a conventional region at or after the allocator's
/// region.
pub open spec fn page_in_region_from(map: Seq<MemoryDescriptor>, from: int, a: u64) -> bool {
    exists|k: int|
        from <= k < map.len() && region_bounds(map[k]) is Some && region_start(#[trigger] map[k])
            <= a && a + PAGE_SIZE <= region_end(map[k])
}

/// Over any sequence of calls: the pages handed out ascend, so no two are the same; each lies
/// at or above the starting position, inside a conventional region at or after its region;
/// and once a call hands out nothing, every later call hands out nothing.
pub proof fn lemma_allocation_run(map: Seq<MemoryDescriptor>, st: PmmState, n: nat)
    requires
        regions_ascending(map),
        cursor_in_region(map, st),
    ensures
        allocate_run(map, st, n).0.len() == n,
        forall|i: int, j: int|
            0 <= i < j < n && #[trigger] allocate_run(map, st, n).0[i] is Some
                && #[trigger] allocate_run(map, st, n).0[j] is Some ==> allocate_run(map, st, n).0[i]->0
                + PAGE_SIZE <= allocate_run(map, st, n).0[j]->0,
        forall|i: int, j: int|
            0 <= i < j < n && #[trigger] allocate_run(map, st, n).0[i] is None ==> #[trigger] allocate_run(
                map,
                st,
                n,
            ).0[j] is None,
        forall|i: int|
            0 <= i < n && #[trigger] allocate_run(map, st, n).0[i] is Some ==> st.1 <= allocate_run(
                map,
                st,
                n,
            ).0[i]->0 && page_in_region_from(map, st.0, allocate_run(map, st, n).0[i]->0),
    decreases n,
{
    if n > 0 {
        lemma_allocation_order(map, st);
        lemma_allocate_spec(map, st);
        let (r, st2) = allocate_spec(map, st);
        lemma_allocation_run(map, st2, (n - 1) as nat);
        let rest = allocate_run(map, st2, (n - 1) as nat).0;
        let rs = allocate_run(map, st, n).0;
        assert(rs == seq![r] + rest);
        assert forall|i: int| 0 < i < n implies #[trigger] rs[i] == rest[i - 1] by {}
        if r is None && n > 1 {
            assert(st2 == st);
            assert(rest[0] == r);
        }
        if r is Some {
            let a = r->0;
            assert(page_in_region_from(map, st.0, a)) by {
                assert(region_start(map[st2.0]) <= a && a + PAGE_SIZE <= region_end(map[st2.0]));
            }
        }
        assert forall|i: int|
            0 < i < n && #[trigger] rs[i] is Some implies st.1 <= rs[i]->0 && page_in_region_from(
                map,
                st.0,
                rs[i]->0,
            ) by {
            assert(rs[i] == rest[i - 1]);
            if r is Some {
                let k = choose|k: int|
                    st2.0 <= k < map.len() && region_bounds(map[k]) is Some && region_start(
                        #[trigger] map[k],
                    ) <= rest[i - 1]->0 && rest[i - 1]->0 + PAGE_SIZE <= region_end(map[k]);
                assert(st.0 <= k);
            }
        }
    }
}

/// The address where the heap ends, from which on the allocator hands out pages.
pub open spec fn heap_end_cursor(map: Seq<MemoryDescriptor>, i: int, need: nat) -> int {
    match heap_end_from(map, i, need) {
        Some((_, c, _)) => c as int,
        None => 0,
    }
}

/// Over a sorted map the heap lies below the allocator's starting position: every heap piece
/// ends at or before the address where the heap ends, from which on pages are handed out.
/// Together with `lemma_allocation_run`, no page handed out overlaps the heap.
pub proof fn lemma_heap_below_pages(map: Seq<MemoryDescriptor>, i: int, need: nat)
    requires
        regions_ascending(map),
        0 <= i,
        0 < need <= conventional_pages_from(map, i) * PAGE_SIZE,
    ensures
        forall|k: int|
            0 <= k < heap_pieces_from(map, i, need).len() ==> #[trigger] heap_pieces_from(
                map,
                i,
                need,
            )[k].start + heap_pieces_from(map, i, need)[k].len <= heap_end_cursor(map, i, need),
    decreases map.len() - i,
{
    lemma_heap_layout(map, i, need);
    if i < map.len() {
        match region_bounds(map[i]) {
            None => {
                lemma_heap_below_pages(map, i + 1, need);
                assert(heap_pieces_from(map, i, need) == heap_pieces_from(map, i + 1, need));
                assert(heap_end_cursor(map, i, need) == heap_end_cursor(map, i + 1, need));
            },
            Some((s, e)) => {
                if need <= e - s {
                    assert(heap_pieces_from(map, i + 1, 0) =~= Seq::<HeapPiece>::empty());
                    assert(heap_pieces_from(map, i, need) =~= seq![HeapPiece { start: s, len: need as u64 }]);
                    assert(heap_end_from(map, i, need) == Some((i, (s + need) as u64, e)));
                    assert(heap_end_cursor(map, i, need) == s + need);
                    assert(heap_pieces_from(map, i, need)[0].start + heap_pieces_from(map, i, need)[0].len
                        == s + need);
                } else {
                    let rest_need = (need - (e - s)) as nat;
                    lemma_heap_below_pages(map, i + 1, rest_need);
                    lemma_heap_layout(map, i + 1, rest_need);
                    let (j, c, e2) = heap_end_from(map, i + 1, rest_need)->0;
                    assert(region_end(map[i]) <= region_start(map[j]));
                    let pieces = heap_pieces_from(map, i, need);
                    let rest = heap_pieces_from(map, i + 1, rest_need);
                    assert(heap_end_from(map, i, need) == heap_end_from(map, i + 1, rest_need));
                    assert(pieces == seq![HeapPiece { start: s, len: (e - s) as u64 }] + rest);
                    assert(region_bounds(map[j]) is Some);
                    assert(region_start(map[j]) <= c);
                    assert(pieces[0].start + pieces[0].len == e);
                    assert(heap_end_cursor(map, i, need) == c);
                    assert forall|k: int| 0 <= k < pieces.len() implies #[trigger] pieces[k].start
                        + pieces[k].len <= heap_end_cursor(map, i, need) by {
                        if k > 0 {
                            assert(pieces[k] == rest[k - 1]);
                        }
                    }
                }
            },
        }
    }
}

/// Where the heap and the page allocator start, read off the memory map.
#[derive(Clone, Debug)]
pub struct MemoryPlan {
    pub stored_descriptors: usize,
    pub conventional_pages: u64,
    pub heap_pieces: Vec<HeapPiece>,
}

/// Why the memory map cannot host the heap.
#[derive(Clone, Copy, Debug, PartialEq, Eq)]
pub enum MemoryInitError {
    EmptySnapshot,
    NoConventionalMemory { stored_descriptors: usize, conventional_pages: u64 },
    NotEnoughMemory { conventional_pages: u64 },
}

/// The heap takes its `HEAP_SIZE_BYTES` from the conventional regions together, in map
/// order: the first bytes of each region, until it has them all. The page allocator starts
/// right after the heap's last piece and walks the regions after it. Fails on an empty map,
/// on a map without conventional memory, and where all conventional memory together is
/// smaller than the heap.
pub fn init_memory(map: &[MemoryDescriptor]) -> (r: Result<(MemoryPlan, PhysicalMemoryManager), MemoryInitError>)
    requires
        map@.len() <= MAX_MEMORY_DESCRIPTORS,
    ensures
        map@.len() == 0 ==> r == Err::<(MemoryPlan, PhysicalMemoryManager), MemoryInitError>(
            MemoryInitError::EmptySnapshot,
        ),
        map@.len() > 0 && conventional_pages_in(map@, map@.len() as int) == 0 ==> r == Err::<
            (MemoryPlan, PhysicalMemoryManager),
            MemoryInitError,
        >(
            MemoryInitError::NoConventionalMemory {
                stored_descriptors: map@.len() as usize,
                conventional_pages: 0,
            },
        ),
        map@.len() > 0 && conventional_pages_in(map@, map@.len() as int) > 0
            && conventional_pages_in(map@, map@.len() as int) * PAGE_SIZE < HEAP_SIZE_BYTES ==> r
            == Err::<(MemoryPlan, PhysicalMemoryManager), MemoryInitError>(
            MemoryInitError::NotEnoughMemory {
                conventional_pages: conventional_pages_in(map@, map@.len() as int) as u64,
            },
        ),
        map@.len() > 0 && conventional_pages_in(map@, map@.len() as int) * PAGE_SIZE
            >= HEAP_SIZE_BYTES ==> (r matches Ok((plan, pmm)) && plan.stored_descriptors
            == map@.len() && plan.conventional_pages == conventional_pages_in(
            map@,
            map@.len() as int,
        ) && plan.heap_pieces@ == heap_pieces_from(map@, 0, HEAP_SIZE_BYTES as nat) && heap_end_from(
            map@,
            0,
            HEAP_SIZE_BYTES as nat,
        ) == Some(pmm.state()) && pmm.wf(map@) && cursor_in_region(map@, pmm.state())),
{
    let stored = map.len();
    if stored == 0 {
        return Err(MemoryInitError::EmptySnapshot);
    }
    let mut conventional_pages: u64 = 0;
    let mut k = 0usize;
    while k < map.len()
        invariant
            k <= map@.len() <= MAX_MEMORY_DESCRIPTORS,
            conventional_pages == conventional_pages_in(map@, k as int),
            conventional_pages <= k * 0x10_0000_0000_0000,
        decreases map.len() - k,
    {
        let desc = &map[k];
        match conventional_region_bounds(desc) {
            Some(_) => {
                conventional_pages = conventional_pages + desc.page_count;
            },
            None => {},
        }
        k += 1;
    }
    if conventional_pages == 0 {
        return Err(
            MemoryInitError::NoConventionalMemory { stored_descriptors: stored, conventional_pages },
        );
    }
    if conventional_pages < HEAP_SIZE_BYTES / PAGE_SIZE {
        return Err(MemoryInitError::NotEnoughMemory { conventional_pages });
    }
    proof {
        lemma_conventional_pages_split(map@, map@.len() as int);
    }
    let mut pieces: Vec<HeapPiece> = Vec::new();
    let mut need: u64 = HEAP_SIZE_BYTES;
    let mut i = 0usize;
    while i < map.len()
        invariant
            i <= map@.len(),
            stored == map@.len(),
            conventional_pages == conventional_pages_in(map@, map@.len() as int),
            conventional_pages >= HEAP_SIZE_BYTES / PAGE_SIZE,
            0 < need <= HEAP_SIZE_BYTES,
            need <= conventional_pages_from(map@, i as int) * PAGE_SIZE,
            heap_pieces_from(map@, 0, HEAP_SIZE_BYTES as nat) == pieces@ + heap_pieces_from(
                map@,
                i as int,
                need as nat,
            ),
            heap_end_from(map@, 0, HEAP_SIZE_BYTES as nat) == heap_end_from(
                map@,
                i as int,
                need as nat,
            ),
        decreases map.len() - i,
    {
        match conventional_region_bounds(&map[i]) {
            Some((start, end)) => {
                let available = end - start;
                if need <= available {
                    let ghost before = pieces@;
                    pieces.push(HeapPiece { start, len: need });
                    assert(heap_pieces_from(map@, i + 1, 0) =~= Seq::<HeapPiece>::empty());
                    assert(pieces@ =~= before + heap_pieces_from(map@, i as int, need as nat));
                    let pmm = PhysicalMemoryManager::new(i, start + need, end);
                    let plan = MemoryPlan { stored_descriptors: stored, conventional_pages, heap_pieces: pieces };
                    return Ok((plan, pmm));
                }
                let ghost before = pieces@;
                pieces.push(HeapPiece { start, len: available });
                assert(before + heap_pieces_from(map@, i as int, need as nat) =~= pieces@
                    + heap_pieces_from(map@, i + 1, (need - available) as nat));
                need = need - available;
            },
            None => {},
        }
        i += 1;
    }
    proof {
        assert(false);
    }
    Err(MemoryInitError::NotEnoughMemory { conventional_pages })
}

/// Sum of the page counts of the descriptors of the conventional memory type (empty ones
/// included).
pub open spec fn usable_pages_in(map: Seq<MemoryDescriptor>, k: int) -> nat
    decreases k,
{
    if k <= 0 {
        0
    } else {
        usable_pages_in(map, k - 1) + if map[k - 1].ty == CONVENTIONAL {
            map[k - 1].page_count as nat
        } else {
            0
        }
    }
}

/// The free pages that the memory map reports: the page counts of its conventional
/// descriptors, summed.
pub fn inspect_memory_map(map: &[MemoryDescriptor]) -> (r: u64)
    requires
        usable_pages_in(map@, map@.len() as int) <= u64::MAX,
    ensures
        r == usable_pages_in(map@, map@.len() as int),
{
    let mut usable_pages: u64 = 0;
    let mut k = 0usize;
    while k < map.len()
        invariant
            k <= map@.len(),
            usable_pages == usable_pages_in(map@, k as int),
            usable_pages_in(map@, map@.len() as int) <= u64::MAX,
        decreases map.len() - k,
    {
        proof {
            lemma_usable_pages_mono(map@, k + 1, map@.len() as int);
        }
        if map[k].ty == CONVENTIONAL {
            usable_pages = usable_pages + map[k].page_count;
        }
        k += 1;
    }
    usable_pages
}

proof fn lemma_usable_pages_mono(map: Seq<MemoryDescriptor>, a: int, b: int)
    requires
        a <= b,
    ensures
        usable_pages_in(map, a) <= usable_pages_in(map, b),
    decreases b - a,
{
    if a < b {
        lemma_usable_pages_mono(map, a, b - 1);
    }
}

/// The first `MAX_MEMORY_DESCRIPTORS` descriptors of a memory map, and whether any were left
/// out.
pub fn snapshot_memory_map(entries: &[MemoryDescriptor]) -> (r: (Vec<MemoryDescriptor>, bool))
    ensures
        r.0@ == entries@.take(
            if entries@.len() <= MAX_MEMORY_DESCRIPTORS {
                entries@.len() as int
            } else {
                MAX_MEMORY_DESCRIPTORS as int
            },
        ),
        r.1 == (entries@.len() > MAX_MEMORY_DESCRIPTORS),
{
    let mut out: Vec<MemoryDescriptor> = Vec::new();
    let mut count = 0usize;
    while count < entries.len()
        invariant
            count <= entries@.len(),
            count <= MAX_MEMORY_DESCRIPTORS,
            out@ == entries@.take(count as int),
        decreases entries.len() - count,
    {
        if count == MAX_MEMORY_DESCRIPTORS {
            return (out, true);
        }
        out.push(entries[count]);
        assert(out@ =~= entries@.take(count + 1));
        count += 1;
    }
    assert(entries@.take(count as int) =~= entries@);
    (out, false)
}

} // verus!
