//! The kernel's identity mapping: page-table entries whose protection follows what each
//! range holds (code, read-only data, data, heap, device memory).
use vstd::prelude::*;
use crate::arch::x86_64::apic::{le32, lemma_le32_bound, lemma_le_value_bound, read_le};
use crate::compression::snappy::{le_value, lemma_pow256_values};
use crate::memory::MemoryDescriptor;

verus! {

pub const PRESENT: u64 = 1;
pub const WRITABLE: u64 = 2;
pub const HUGE_PAGE: u64 = 0x80;
/// Flags of a present, writable entry.
pub const NORMAL_MEMORY: u64 = 3;

/// Bytes mapped by one page-directory entry with the huge-page bit.
pub const HUGE_PAGE_BYTES: u64 = 0x20_0000;
/// Bytes mapped by one page directory.
pub const GIB: u64 = 0x4000_0000;

/// A table entry that points to a page-aligned table or frame `phys` with `flags` (below
/// bit 12).
pub fn table_entry(phys: u64, flags: u64) -> (r: u64)
    requires
        phys % 4096 == 0,
        flags < 4096,
    ensures
        r == phys + flags,
        r == phys | flags,
{
    let r = phys | flags;
    assert(r == phys + flags) by (bit_vector)
        requires
            phys % 4096 == 0,
            flags < 4096,
            r == phys | flags,
    ;
    r
}

/// Page-level write-through (bit 3).
pub const WRITE_THROUGH: u64 = 0x8;
/// Page-level cache disable (bit 4).
pub const CACHE_DISABLE: u64 = 0x10;
/// No-execute (bit 63), honoured once EFER.NXE is set.
pub const NO_EXECUTE: u64 = 0x8000_0000_0000_0000;
/// Bytes mapped by one page-table entry.
pub const SMALL_PAGE_BYTES: u64 = 4096;
/// The first address past the 52-bit physical address space.
pub const PHYS_LIMIT: u64 = 0x10_0000_0000_0000;

/// What a mapped range holds, which decides its protection.
#[derive(Clone, Copy, Debug, PartialEq, Eq, Structural)]
pub enum MappingKind {
    /// Kernel code: read and execute.
    Text,
    /// Read-only kernel data: read only.
    Rodata,
    /// Kernel data and bss: read and write, no execute.
    Data,
    /// The kernel heap and the page allocator's memory: read and write, no execute.
    Heap,
    /// Device registers and frame buffers: read and write, uncached, no execute.
    Mmio,
}

pub open spec fn kind_writable(k: MappingKind) -> bool {
    k is Data || k is Heap || k is Mmio
}

pub open spec fn kind_executable(k: MappingKind) -> bool {
    k is Text
}

pub open spec fn kind_uncached(k: MappingKind) -> bool {
    k is Mmio
}

/// The flags of a present leaf entry for `k`: writable only where `k` is written, no-execute
/// everywhere but code, cache disable and write-through for device memory.
pub open spec fn leaf_flags_spec(k: MappingKind) -> u64 {
    (PRESENT + (if kind_writable(k) { WRITABLE } else { 0 }) + (if kind_uncached(k) {
        WRITE_THROUGH + CACHE_DISABLE
    } else {
        0
    }) + (if kind_executable(k) { 0 } else { NO_EXECUTE })) as u64
}

pub fn leaf_flags(k: MappingKind) -> (r: u64)
    ensures
        r == leaf_flags_spec(k),
{
    match k {
        MappingKind::Text => PRESENT,
        MappingKind::Rodata => PRESENT + NO_EXECUTE,
        MappingKind::Data => PRESENT + WRITABLE + NO_EXECUTE,
        MappingKind::Heap => PRESENT + WRITABLE + NO_EXECUTE,
        MappingKind::Mmio => PRESENT + WRITABLE + WRITE_THROUGH + CACHE_DISABLE + NO_EXECUTE,
    }
}

/// No leaf is both writable and executable: its writable bit (1) is set only where its
/// no-execute bit (63) is set. Every kind but code carries no-execute, and device memory is
/// uncached (bits 3 and 4).
pub proof fn lemma_write_xor_execute(k: MappingKind)
    ensures
        !(kind_writable(k) && kind_executable(k)),
        (leaf_flags_spec(k) / WRITABLE) % 2 == 1 <==> kind_writable(k),
        leaf_flags_spec(k) / NO_EXECUTE == 1 <==> !kind_executable(k),
        (leaf_flags_spec(k) / WRITABLE) % 2 == 1 ==> leaf_flags_spec(k) / NO_EXECUTE == 1,
        k !is Text ==> leaf_flags_spec(k) / NO_EXECUTE == 1,
        k is Mmio ==> (leaf_flags_spec(k) / WRITE_THROUGH) % 4 == 3,
        leaf_flags_spec(k) % 2 == 1,
        leaf_flags_spec(k) % HUGE_PAGE_BYTES < 0x100,
{
}

/// A range of addresses `[start, end)` and what it holds.
#[derive(Clone, Copy, Debug, PartialEq, Eq, Structural)]
pub struct MappedRange {
    pub start: u64,
    pub end: u64,
    pub kind: MappingKind,
}

/// The kind of the first range from `i` on that holds address `a`.
pub open spec fn kind_from(ranges: Seq<MappedRange>, i: int, a: int) -> Option<MappingKind>
    decreases ranges.len() - i,
{
    if i < 0 || i >= ranges.len() {
        None
    } else if ranges[i].start <= a < ranges[i].end {
        Some(ranges[i].kind)
    } else {
        kind_from(ranges, i + 1, a)
    }
}

/// The kind of the first range that holds address `a`; none where no range holds it.
pub open spec fn kind_at(ranges: Seq<MappedRange>, a: int) -> Option<MappingKind> {
    kind_from(ranges, 0, a)
}

/// What the first range holding `a` holds.
pub fn kind_of(ranges: &[MappedRange], a: u64) -> (r: Option<MappingKind>)
    ensures
        r == kind_at(ranges@, a as int),
{
    let mut i = 0usize;
    while i < ranges.len()
        invariant
            i <= ranges@.len(),
            kind_from(ranges@, 0, a as int) == kind_from(ranges@, i as int, a as int),
        decreases ranges.len() - i,
    {
        let r = ranges[i];
        if r.start <= a && a < r.end {
            return Some(r.kind);
        }
        i += 1;
    }
    None
}

/// The 4 KiB leaf entry for the page at `p`: mapped to itself with its range's flags, or not
/// present where no range holds it.
pub open spec fn page_entry_spec(ranges: Seq<MappedRange>, p: int) -> u64 {
    match kind_at(ranges, p) {
        Some(k) => (p + leaf_flags_spec(k)) as u64,
        None => 0,
    }
}

/// Every 4 KiB page of the 2 MiB page at `base` is held by the range that holds `base`'s
/// first byte, or by none alike.
pub open spec fn uniform_at(ranges: Seq<MappedRange>, base: int) -> bool {
    forall|i: int|
        0 <= i < 512 ==> #[trigger] kind_at(ranges, base + i * SMALL_PAGE_BYTES) == kind_at(
            ranges,
            base,
        )
}

/// How one page-directory entry of the identity mapping is filled.
#[derive(Debug)]
pub enum PdEntryPlan {
    /// No range holds any of its pages.
    Unmapped,
    /// One kind holds all of it: this 2 MiB leaf entry.
    Huge(u64),
    /// Its pages differ: these 512 leaf entries of a page table.
    Split(Vec<u64>),
}

/// Whether `plan` fills the page-directory entry for the 2 MiB page at `base` as
/// `pd_entry_plan` does: one huge leaf where a single kind holds every 4 KiB page, nothing
/// where no range does, else a page table of 4 KiB leaves.
pub open spec fn pd_plan_spec(plan: PdEntryPlan, ranges: Seq<MappedRange>, base: int) -> bool {
    &&& uniform_at(ranges, base) ==> match kind_at(ranges, base) {
        Some(k) => plan == PdEntryPlan::Huge((base + leaf_flags_spec(k) + HUGE_PAGE) as u64),
        None => plan is Unmapped,
    }
    &&& !uniform_at(ranges, base) ==> (plan matches PdEntryPlan::Split(v) && v@ == Seq::new(
        512,
        |i: int| page_entry_spec(ranges, base + i * SMALL_PAGE_BYTES),
    ))
}

/// The page-directory entry for the 2 MiB page at `base`, mapped to itself: one huge leaf
/// where a single kind holds every 4 KiB page of it (each page counts by its first byte),
/// nothing where no range does, else a page table of 4 KiB leaves.
pub fn pd_entry_plan(base: u64, ranges: &[MappedRange]) -> (r: PdEntryPlan)
    requires
        base % HUGE_PAGE_BYTES == 0,
        base + HUGE_PAGE_BYTES <= PHYS_LIMIT,
    ensures
        pd_plan_spec(r, ranges@, base as int),
{
    let first = kind_of(ranges, base);
    let mut entries: Vec<u64> = Vec::new();
    let mut uniform = true;
    let mut i = 0u64;
    while i < 512
        invariant
            i <= 512,
            base + HUGE_PAGE_BYTES <= PHYS_LIMIT,
            first == kind_at(ranges@, base as int),
            entries@.len() == i,
            forall|j: int|
                0 <= j < i ==> entries@[j] == #[trigger] page_entry_spec(
                    ranges@,
                    base + j * SMALL_PAGE_BYTES,
                ),
            uniform == (forall|j: int|
                0 <= j < i ==> #[trigger] kind_at(ranges@, base + j * SMALL_PAGE_BYTES)
                    == kind_at(ranges@, base as int)),
        decreases 512 - i,
    {
        let page = base + i * SMALL_PAGE_BYTES;
        let k = kind_of(ranges, page);
        let entry = match k {
            Some(kind) => page + leaf_flags(kind),
            None => 0,
        };
        entries.push(entry);
        if k != first {
            uniform = false;
        }
        i += 1;
    }
    if uniform {
        match first {
            Some(k) => PdEntryPlan::Huge(base + leaf_flags(k) + HUGE_PAGE),
            None => PdEntryPlan::Unmapped,
        }
    } else {
        assert(entries@ =~= Seq::new(
            512,
            |i: int| page_entry_spec(ranges@, base + i * SMALL_PAGE_BYTES),
        ));
        PdEntryPlan::Split(entries)
    }
}

/// The kind of a PE section from its characteristics: executable sections (bit 29) are
/// code, writable ones (bit 31) data, the rest read-only data.
pub open spec fn section_kind_spec(characteristics: nat) -> MappingKind {
    if (characteristics / 0x2000_0000) % 2 == 1 {
        MappingKind::Text
    } else if (characteristics / 0x8000_0000) % 2 == 1 {
        MappingKind::Data
    } else {
        MappingKind::Rodata
    }
}

pub fn section_kind(characteristics: u32) -> (r: MappingKind)
    ensures
        r == section_kind_spec(characteristics as nat),
{
    if (characteristics / 0x2000_0000) % 2 == 1 {
        MappingKind::Text
    } else if (characteristics / 0x8000_0000) % 2 == 1 {
        MappingKind::Data
    } else {
        MappingKind::Rodata
    }
}

/// Where a PE image's section table starts and how many sections it lists, from the image's
/// headers: the PE header's offset at 0x3C, its "PE\0\0" signature, the section count at
/// offset 6 of that header and the optional header's size at offset 20; the table follows the
/// optional header and must lie inside the bytes given.
pub open spec fn pe_section_table(h: Seq<u8>) -> Option<(int, int)> {
    if h.len() < 0x40 {
        None
    } else {
        let pe = le32(h, 0x3C) as int;
        if pe + 24 > h.len() || le32(h, pe) != 0x4550 {
            None
        } else {
            let count = le_value(h, pe + 6, 2) as int;
            let table = pe + 24 + le_value(h, pe + 20, 2);
            if table + 40 * count > h.len() {
                None
            } else {
                Some((table, count))
            }
        }
    }
}

/// Section `i` of the table at `table`, loaded at `base`: from its virtual address (offset 12)
/// for its virtual size (offset 8), of the kind its characteristics (offset 36) give. None
/// where its end passes the top of the address space.
pub open spec fn pe_section_range(h: Seq<u8>, table: int, i: int, base: u64) -> Option<MappedRange> {
    let t = table + 40 * i;
    let start = base + le32(h, t + 12);
    let end = start + le32(h, t + 8);
    if end > u64::MAX {
        None
    } else {
        Some(
            MappedRange {
                start: start as u64,
                end: end as u64,
                kind: section_kind_spec(le32(h, t + 36)),
            },
        )
    }
}

/// The ranges of a PE image's sections, loaded at `base`, from the image's headers; none
/// where the headers do not describe a section table or a section's end overflows.
pub fn pe_image_ranges(headers: &[u8], base: u64) -> (r: Option<Vec<MappedRange>>)
    ensures
        match pe_section_table(headers@) {
            None => r is None,
            Some((table, count)) => if forall|i: int|
                0 <= i < count ==> #[trigger] pe_section_range(headers@, table, i, base) is Some {
                r matches Some(v) && v@ == Seq::new(
                    count as nat,
                    |i: int| pe_section_range(headers@, table, i, base)->0,
                )
            } else {
                r is None
            },
        },
{
    let len = headers.len();
    if len < 0x40 {
        return None;
    }
    proof {
        lemma_le32_bound(headers@, 0x3C);
    }
    let pe = read_le(headers, 0x3C, 4);
    if pe + 24 > len as u64 {
        return None;
    }
    let pe = pe as usize;
    if read_le(headers, pe, 4) != 0x4550 {
        return None;
    }
    proof {
        lemma_le_value_bound(headers@, pe + 6, 2);
        lemma_le_value_bound(headers@, pe + 20, 2);
        lemma_pow256_values();
    }
    let count = read_le(headers, pe + 6, 2);
    let table = pe as u64 + 24 + read_le(headers, pe + 20, 2);
    if table + 40 * count > len as u64 {
        return None;
    }
    let ghost table_i = table as int;
    let mut out: Vec<MappedRange> = Vec::new();
    let mut i = 0u64;
    while i < count
        invariant
            pe_section_table(headers@) == Some((table_i, count as int)),
            table == table_i,
            count < 0x1_0000,
            table + 40 * count <= headers@.len(),
            len == headers@.len(),
            i <= count,
            out@.len() == i,
            forall|j: int|
                0 <= j < i ==> #[trigger] pe_section_range(headers@, table_i, j, base) == Some(
                    out@[j],
                ),
        decreases count - i,
    {
        assert(table + 40 * i + 40 <= table + 40 * count) by (nonlinear_arith)
            requires
                i < count,
        ;
        let t = (table + 40 * i) as usize;
        proof {
            lemma_le32_bound(headers@, t + 8);
            lemma_le32_bound(headers@, t + 12);
            lemma_le32_bound(headers@, t + 36);
        }
        let virtual_size = read_le(headers, t + 8, 4);
        let virtual_address = read_le(headers, t + 12, 4);
        let characteristics = read_le(headers, t + 36, 4);
        assert(t == table_i + 40 * i);
        let start = match base.checked_add(virtual_address) {
            Some(v) => v,
            None => {
                assert(pe_section_range(headers@, table_i, i as int, base) is None);
                return None;
            },
        };
        let end = match start.checked_add(virtual_size) {
            Some(v) => v,
            None => {
                assert(pe_section_range(headers@, table_i, i as int, base) is None);
                return None;
            },
        };
        out.push(MappedRange { start, end, kind: section_kind(characteristics as u32) });
        i += 1;
    }
    assert(out@ =~= Seq::new(
        count as nat,
        |i: int| pe_section_range(headers@, table_i, i, base)->0,
    ));
    Some(out)
}

/// How the identity mapping treats a region of the firmware's memory map, by its type:
/// free memory, loader data and the boot services' memory (no longer used after they exit)
/// as heap; loader code, runtime services and ACPI tables as read-only data; memory-mapped
/// I/O as device memory; reserved, unusable and other types not at all.
pub open spec fn descriptor_kind_spec(ty: u32) -> Option<MappingKind> {
    if ty == 2 || ty == 3 || ty == 4 || ty == 7 {
        Some(MappingKind::Heap)
    } else if ty == 1 || ty == 5 || ty == 6 || ty == 9 || ty == 10 {
        Some(MappingKind::Rodata)
    } else if ty == 11 || ty == 12 {
        Some(MappingKind::Mmio)
    } else {
        None
    }
}

/// The range that the identity mapping gives a memory-map region: its pages, of the kind
/// its type calls for; none for a type that is not mapped, an empty region, or one whose end
/// passes the top of the address space.
pub fn descriptor_range(d: &MemoryDescriptor) -> (r: Option<MappedRange>)
    ensures
        r == descriptor_range_spec(*d),
{
    let t = d.ty;
    let kind = if t == 2 || t == 3 || t == 4 || t == 7 {
        MappingKind::Heap
    } else if t == 1 || t == 5 || t == 6 || t == 9 || t == 10 {
        MappingKind::Rodata
    } else if t == 11 || t == 12 {
        MappingKind::Mmio
    } else {
        return None;
    };
    if d.page_count == 0 {
        return None;
    }
    let bytes = match d.page_count.checked_mul(SMALL_PAGE_BYTES) {
        Some(b) => b,
        None => {
            return None;
        },
    };
    let end = match d.phys_start.checked_add(bytes) {
        Some(e) => e,
        None => {
            return None;
        },
    };
    Some(MappedRange { start: d.phys_start, end, kind })
}

/// The indices that a virtual address selects in the PML4, the PDPT and the page directory.
pub fn table_indices(va: u64) -> (r: (usize, usize, usize))
    ensures
        r.0 == (va / 0x80_0000_0000) % 512,
        r.1 == (va / GIB) % 512,
        r.2 == (va / HUGE_PAGE_BYTES) % 512,
{
    (((va / 0x80_0000_0000) % 512) as usize, ((va / GIB) % 512) as usize, ((va / HUGE_PAGE_BYTES)
        % 512) as usize)
}

/// The window below 4 GiB where PCI devices, the I/O APIC and the local APIC have their
/// registers.
pub const PCI_HOLE_START: u64 = 0xC000_0000;
pub const PCI_HOLE_END: u64 = 0x1_0000_0000;

/// The ranges of the kernel's identity mapping, first match first: the kernel image's
/// sections, then the memory map's regions by type, then the PCI window as device memory.
pub open spec fn mapping_ranges_spec(image: Seq<MappedRange>, map: Seq<MemoryDescriptor>) -> Seq<MappedRange> {
    image + map.filter_map(|d: MemoryDescriptor| descriptor_range_spec(d)) + seq![MappedRange { start: PCI_HOLE_START, end: PCI_HOLE_END, kind: MappingKind::Mmio }]
}

/// The range that `descriptor_range` gives a memory-map region.
pub open spec fn descriptor_range_spec(d: MemoryDescriptor) -> Option<MappedRange> {
    match descriptor_kind_spec(d.ty) {
        None => None,
        Some(k) => if d.page_count == 0 || d.phys_start + d.page_count * SMALL_PAGE_BYTES > u64::MAX {
            None
        } else {
            Some(
                MappedRange {
                    start: d.phys_start,
                    end: (d.phys_start + d.page_count * SMALL_PAGE_BYTES) as u64,
                    kind: k,
                },
            )
        },
    }
}

pub fn mapping_ranges(image: &[MappedRange], map: &[MemoryDescriptor]) -> (r: Vec<MappedRange>)
    ensures
        r@ == mapping_ranges_spec(image@, map@),
{
    let mut out: Vec<MappedRange> = Vec::new();
    let mut i = 0usize;
    while i < image.len()
        invariant
            i <= image@.len(),
            out@ == image@.take(i as int),
        decreases image.len() - i,
    {
        out.push(image[i]);
        assert(out@ =~= image@.take(i + 1));
        i += 1;
    }
    assert(image@.take(i as int) =~= image@);
    let ghost f = |d: MemoryDescriptor| descriptor_range_spec(d);
    let mut j = 0usize;
    while j < map.len()
        invariant
            j <= map@.len(),
            out@ == image@ + map@.take(j as int).filter_map(f),
            f == (|d: MemoryDescriptor| descriptor_range_spec(d)),
        decreases map.len() - j,
    {
        proof {
            map@.lemma_filter_map_take_succ(f, j as int);
        }
        let ghost prev = map@.take(j as int).filter_map(f);
        assert(f(map@[j as int]) == descriptor_range_spec(map@[j as int]));
        match descriptor_range(&map[j]) {
            Some(r) => {
                out.push(r);
                assert(map@.take(j + 1).filter_map(f) == prev + seq![r]);
                assert(out@ =~= image@ + map@.take(j + 1).filter_map(f));
            },
            None => {
                assert(map@.take(j + 1).filter_map(f) == prev + Seq::<MappedRange>::empty());
                assert(out@ =~= image@ + map@.take(j + 1).filter_map(f));
            },
        }
        j += 1;
    }
    assert(map@.take(j as int) =~= map@);
    out.push(MappedRange { start: PCI_HOLE_START, end: PCI_HOLE_END, kind: MappingKind::Mmio });
    out
}

/// The largest end among the first `n` ranges (zero for none).
pub open spec fn max_end(ranges: Seq<MappedRange>, n: int) -> u64
    decreases n,
{
    if n <= 0 || n > ranges.len() {
        0
    } else {
        let m = max_end(ranges, n - 1);
        if ranges[n - 1].end > m {
            ranges[n - 1].end
        } else {
            m
        }
    }
}

/// The number of 2 MiB page-directory entries the mapping fills: those that start below the
/// largest range end, within the physical address space.
pub open spec fn plan_len(ranges: Seq<MappedRange>) -> nat {
    let top = max_end(ranges, ranges.len() as int);
    if top >= PHYS_LIMIT {
        (PHYS_LIMIT / HUGE_PAGE_BYTES) as nat
    } else {
        ((top + HUGE_PAGE_BYTES - 1) / (HUGE_PAGE_BYTES as int)) as nat
    }
}

/// The identity mapping, one page-directory entry per 2 MiB page from address zero up to the
/// largest range end (within the physical address space): entry `k` is the 2 MiB page at
/// `k * 2 MiB`, filled as `pd_entry_plan` fills it.
pub fn paging_plan(ranges: &[MappedRange]) -> (r: Vec<(u64, PdEntryPlan)>)
    ensures
        r@.len() == plan_len(ranges@),
        forall|k: int|
            0 <= k < r@.len() ==> #[trigger] r@[k].0 == k * HUGE_PAGE_BYTES && pd_plan_spec(
                r@[k].1,
                ranges@,
                k * HUGE_PAGE_BYTES,
            ),
{
    let mut top = 0u64;
    let mut i = 0usize;
    while i < ranges.len()
        invariant
            i <= ranges@.len(),
            top == max_end(ranges@, i as int),
        decreases ranges.len() - i,
    {
        if ranges[i].end > top {
            top = ranges[i].end;
        }
        i += 1;
    }
    let mut out: Vec<(u64, PdEntryPlan)> = Vec::new();
    let mut base = 0u64;
    while base < top && base <= PHYS_LIMIT - HUGE_PAGE_BYTES
        invariant
            top == max_end(ranges@, ranges@.len() as int),
            base == out@.len() * HUGE_PAGE_BYTES,
            base <= PHYS_LIMIT,
            out@.len() <= plan_len(ranges@),
            forall|k: int|
                0 <= k < out@.len() ==> #[trigger] out@[k].0 == k * HUGE_PAGE_BYTES && pd_plan_spec(
                    out@[k].1,
                    ranges@,
                    k * HUGE_PAGE_BYTES,
                ),
        decreases PHYS_LIMIT - base,
    {
        let plan = pd_entry_plan(base, ranges);
        out.push((base, plan));
        base = base + HUGE_PAGE_BYTES;
    }
    out
}

/// EFER with the no-execute enable bit (11) set.
pub fn efer_with_nxe(efer: u64) -> (r: u64)
    ensures
        r == efer | 0x800,
{
    let r = efer | (1u64 << 11u64);
    assert(r == efer | 0x800) by (bit_vector)
        requires
            r == efer | (1u64 << 11u64),
    ;
    r
}

} // verus!
