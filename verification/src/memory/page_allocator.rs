//! Kernel virtual page allocator.
//!
//! In runt mode every request is answered with the first top-level table entry
//! of the higher half that maps nothing. In full mode the allocator keeps the
//! unused virtual ranges of the higher half, found by walking the kernel page
//! tables, and hands them out first fit.
use vstd::prelude::*;
use crate::memory::MemoryRegion;
use std::collections::BTreeMap;

verus! {

pub const P4_SPAN: u64 = 0x80_0000_0000;
pub const P3_SPAN: u64 = 0x4000_0000;
pub const P2_SPAN: u64 = 0x20_0000;
pub const P1_SPAN: u64 = 0x1000;

/// Bytes mapped by one entry of a table at `level` (4 is the top), 0 for a
/// level that does not exist.
pub open spec fn level_span(level: u8) -> int {
    if level == 4 {
        P4_SPAN as int
    } else if level == 3 {
        P3_SPAN as int
    } else if level == 2 {
        P2_SPAN as int
    } else if level == 1 {
        P1_SPAN as int
    } else {
        0
    }
}

pub open spec fn valid_level(level: u8) -> bool {
    1 <= level <= 4
}

/// A 64-bit address with bits 48..63 copied from bit 47.
pub open spec fn sign_extend_48(x: u64) -> u64 {
    if x & 0x8000_0000_0000 != 0 {
        x | 0xFFFF_0000_0000_0000
    } else {
        x & 0x0000_FFFF_FFFF_FFFF
    }
}

/// Make a virtual address canonical by sign-extending bit 47.
pub fn canonical(x: u64) -> (r: u64)
    ensures
        r == sign_extend_48(x),
{
    if x & 0x8000_0000_0000 != 0 {
        x | 0xFFFF_0000_0000_0000
    } else {
        x & 0x0000_FFFF_FFFF_FFFF
    }
}

/// Runs of adjacent regions merged into one.
pub open spec fn compact(s: Seq<MemoryRegion>) -> Seq<MemoryRegion>
    decreases s.len(),
{
    if s.len() == 0 {
        s
    } else {
        let c = compact(s.drop_last());
        if c.len() > 0 && c.last().end == s.last().start {
            c.update(c.len() - 1, MemoryRegion { start: c.last().start, end: s.last().end })
        } else {
            c.push(s.last())
        }
    }
}

/// Start of the run of adjacent regions that region `i` ends.
pub open spec fn run_start(s: Seq<MemoryRegion>, i: int) -> u64
    decreases i,
{
    if i <= 0 || s[i].start != s[i - 1].end {
        s[i].start
    } else {
        run_start(s, i - 1)
    }
}

/// How the regions collected from the tables below a level are folded: for
/// every region that is the last one or not empty, the range from the start of
/// its run to its end.
pub open spec fn fold_children(s: Seq<MemoryRegion>, n: int) -> Seq<MemoryRegion>
    decreases n,
{
    if n <= 0 {
        Seq::empty()
    } else {
        let prev = fold_children(s, n - 1);
        let i = n - 1;
        if i == s.len() - 1 || s[i].end != s[i].start {
            prev.push(MemoryRegion { start: run_start(s, i), end: s[i].end })
        } else {
            prev
        }
    }
}

/// The region each unused entry of a table maps (at the top level only the
/// higher half counts), in entry order.
pub open spec fn unused_entries(level: u8, offset_above: int, present: Seq<bool>, n: int) -> Seq<
    MemoryRegion,
>
    decreases n,
{
    if n <= 0 {
        Seq::empty()
    } else {
        let prev = unused_entries(level, offset_above, present, n - 1);
        let i = n - 1;
        if !present[i] && (level != 4 || i >= 256) {
            let start = if level == 4 { i * level_span(level) } else { offset_above + i * level_span(level) };
            prev.push(MemoryRegion { start: start as u64, end: (start + level_span(level)) as u64 })
        } else {
            prev
        }
    }
}

/// Virtual address of the range that entry `idx` of a table at `level` maps,
/// where the table itself maps from `offset_above` (the top table maps from 0).
pub fn entry_base(level: u8, offset_above: u64, idx: u64) -> (r: u64)
    requires
        valid_level(level),
        idx < 512,
        offset_above + 512 * level_span(level) <= u64::MAX,
    ensures
        r == (if level == 4 { idx * level_span(level) } else { offset_above + idx * level_span(level) }),
{
    if level == 4 {
        idx * P4_SPAN
    } else if level == 3 {
        offset_above + idx * P3_SPAN
    } else if level == 2 {
        offset_above + idx * P2_SPAN
    } else {
        offset_above + idx * P1_SPAN
    }
}

pub(crate) fn span_of(level: u8) -> (r: u64)
    requires
        valid_level(level),
    ensures
        r == level_span(level),
{
    if level == 4 {
        P4_SPAN
    } else if level == 3 {
        P3_SPAN
    } else if level == 2 {
        P2_SPAN
    } else {
        P1_SPAN
    }
}

/// Merge runs of adjacent regions.
pub fn compact_regions(entries: &Vec<MemoryRegion>) -> (r: Vec<MemoryRegion>)
    ensures
        r@ == compact(entries@),
{
    let mut out: Vec<MemoryRegion> = Vec::new();
    let mut i: usize = 0;
    assert(entries@.subrange(0, 0) =~= Seq::<MemoryRegion>::empty());
    while i < entries.len()
        invariant
            0 <= i <= entries.len(),
            out@ == compact(entries@.subrange(0, i as int)),
        decreases entries.len() - i,
    {
        proof {
            assert(entries@.subrange(0, i + 1).drop_last() =~= entries@.subrange(0, i as int));
        }
        let e = entries[i];
        let n = out.len();
        if n > 0 && out[n - 1].end == e.start {
            let s = out[n - 1].start;
            out.set(n - 1, MemoryRegion { start: s, end: e.end });
        } else {
            out.push(e);
        }
        i = i + 1;
    }
    assert(entries@.subrange(0, entries@.len() as int) =~= entries@);
    out
}

/// Fold the regions gathered from the tables below a level.
pub fn fold_child_regions(entries: &Vec<MemoryRegion>) -> (r: Vec<MemoryRegion>)
    ensures
        r@ == fold_children(entries@, entries@.len() as int),
{
    let mut out: Vec<MemoryRegion> = Vec::new();
    let mut current_start: u64 = 0;
    let mut i: usize = 0;
    while i < entries.len()
        invariant
            0 <= i <= entries.len(),
            out@ == fold_children(entries@, i as int),
            i > 0 ==> current_start == run_start(entries@, i - 1),
        decreases entries.len() - i,
    {
        let e = entries[i];
        if i == 0 {
            current_start = e.start;
        } else if e.start != entries[i - 1].end {
            current_start = e.start;
        }
        if i == entries.len() - 1 || e.end != e.start {
            out.push(MemoryRegion { start: current_start, end: e.end });
        }
        i = i + 1;
    }
    out
}

/// The unused entries of one table, as merged ranges.
pub fn unused_regions_in_table(level: u8, offset_above: u64, present: &Vec<bool>) -> (r: Vec<MemoryRegion>)
    requires
        valid_level(level),
        present@.len() <= 512,
        offset_above + 513 * level_span(level) <= u64::MAX,
    ensures
        r@ == compact(unused_entries(level, offset_above as int, present@, present@.len() as int)),
{
    let span = span_of(level);
    let mut entries: Vec<MemoryRegion> = Vec::new();
    let mut i: usize = 0;
    while i < present.len()
        invariant
            0 <= i <= present.len(),
            present@.len() <= 512,
            valid_level(level),
            span == level_span(level),
            offset_above + 513 * level_span(level) <= u64::MAX,
            entries@ == unused_entries(level, offset_above as int, present@, i as int),
        decreases present.len() - i,
    {
        if !present[i] && (level != 4 || i >= 256) {
            let start = entry_base(level, offset_above, i as u64);
            proof {
                assert(i * level_span(level) <= 512 * level_span(level)) by (nonlinear_arith)
                    requires
                        i < 512,
                        level_span(level) >= 0,
                ;
            }
            entries.push(MemoryRegion { start, end: start + span });
        }
        i = i + 1;
    }
    compact_regions(&entries)
}

/// One entry of a page table as the walk reads it: whether it is present,
/// whether it maps a huge page, and the physical address it points to.
#[derive(Clone, Copy, Debug, PartialEq, Eq, Structural)]
pub struct PageTableEntryInfo {
    pub present: bool,
    pub huge: bool,
    pub addr: u64,
}

/// Upper end of the addresses the four levels of tables map.
pub const WALK_LIMIT: u64 = 0x1_0000_0000_0000;

pub open spec fn presents(t: Seq<PageTableEntryInfo>) -> Seq<bool> {
    Seq::new(t.len(), |i: int| t[i].present)
}

/// Whether the walk goes down into the table entry `i` of a table at
/// `level` points to: it must be present; at the top level it must be in
/// the higher half, below it it must not map a huge page. Tables at the
/// lowest level point to no tables.
pub open spec fn descends(level: u8, i: int, e: PageTableEntryInfo) -> bool {
    &&& 2 <= level <= 4
    &&& e.present
    &&& if level == 4 { i >= 256 } else { !e.huge }
}

/// Where the range of entry `i` of a table at `level` starts.
pub open spec fn child_offset(level: u8, offset_above: int, i: int) -> int {
    if level == 4 { i * level_span(level) } else { offset_above + i * level_span(level) }
}

/// The unused ranges the walk gathers from the table at `table` (an address
/// in the direct map at `hhdm`), which maps from `offset_above` at `level`:
/// the table's own unused entries merged, then what the tables below
/// give, folded.
pub open spec fn gathered(level: u8, offset_above: int, table: u64, hhdm: u64,
    tables: Map<u64, Vec<PageTableEntryInfo>>) -> Seq<MemoryRegion>
    decreases level, tables[table]@.len() as int + 1,
{
    let t = tables[table]@;
    let own = compact(unused_entries(level, offset_above, presents(t), t.len() as int));
    let children = gathered_children(level, offset_above, t, hhdm, tables, t.len() as int);
    own + fold_children(children, children.len() as int)
}

/// What the tables below the first `n` entries of `t` give, in order.
pub open spec fn gathered_children(level: u8, offset_above: int, t: Seq<PageTableEntryInfo>, hhdm: u64,
    tables: Map<u64, Vec<PageTableEntryInfo>>, n: int) -> Seq<MemoryRegion>
    decreases level, n,
{
    if n <= 0 || level < 2 || level > 4 {
        Seq::empty()
    } else {
        let prev = gathered_children(level, offset_above, t, hhdm, tables, n - 1);
        if descends(level, n - 1, t[n - 1]) {
            prev + gathered((level - 1) as u8, child_offset(level, offset_above, n - 1),
                (t[n - 1].addr + hhdm) as u64, hhdm, tables)
        } else {
            prev
        }
    }
}

/// Whether every table the walk reads from `table` down is in `tables`,
/// has at most 512 entries, and is reached without overflow.
pub open spec fn walkable(level: u8, offset_above: int, table: u64, hhdm: u64,
    tables: Map<u64, Vec<PageTableEntryInfo>>) -> bool
    decreases level, tables[table]@.len() as int + 1,
{
    &&& tables.contains_key(table)
    &&& tables[table]@.len() <= 512
    &&& walkable_children(level, offset_above, tables[table]@, hhdm, tables, tables[table]@.len() as int)
}

pub open spec fn walkable_children(level: u8, offset_above: int, t: Seq<PageTableEntryInfo>, hhdm: u64,
    tables: Map<u64, Vec<PageTableEntryInfo>>, n: int) -> bool
    decreases level, n,
{
    if n <= 0 || level < 2 || level > 4 {
        true
    } else {
        &&& walkable_children(level, offset_above, t, hhdm, tables, n - 1)
        &&& descends(level, n - 1, t[n - 1]) ==> {
            &&& t[n - 1].addr + hhdm <= u64::MAX
            &&& walkable((level - 1) as u8, child_offset(level, offset_above, n - 1),
                    (t[n - 1].addr + hhdm) as u64, hhdm, tables)
        }
    }
}

proof fn lemma_walkable_child(level: u8, offset_above: int, t: Seq<PageTableEntryInfo>, hhdm: u64,
    tables: Map<u64, Vec<PageTableEntryInfo>>, n: int, i: int)
    requires
        walkable_children(level, offset_above, t, hhdm, tables, n),
        0 <= i < n,
        2 <= level <= 4,
        descends(level, i, t[i]),
    ensures
        t[i].addr + hhdm <= u64::MAX,
        walkable((level - 1) as u8, child_offset(level, offset_above, i), (t[i].addr + hhdm) as u64, hhdm, tables),
    decreases n,
{
    if i < n - 1 {
        lemma_walkable_child(level, offset_above, t, hhdm, tables, n - 1, i);
    }
}

fn append_regions(dst: &mut Vec<MemoryRegion>, src: &Vec<MemoryRegion>)
    ensures
        final(dst)@ == old(dst)@ + src@,
{
    let mut i: usize = 0;
    while i < src.len()
        invariant
            i <= src@.len(),
            dst@ == old(dst)@ + src@.take(i as int),
        decreases src@.len() - i,
    {
        dst.push(src[i]);
        assert(src@.take(i + 1) =~= src@.take(i as int).push(src@[i as int]));
        i = i + 1;
    }
    assert(src@.take(i as int) =~= src@);
}

/// Start of a first-fit allocation.
pub open spec fn fit_index(s: Seq<MemoryRegion>, need: int) -> int
    decreases s.len(),
{
    if s.len() == 0 {
        0
    } else {
        let d = fit_index(s.drop_last(), need);
        if d < s.len() - 1 {
            d
        } else if s.last().end - s.last().start >= need {
            s.len() - 1
        } else {
            s.len() as int
        }
    }
}

proof fn lemma_fit_index(s: Seq<MemoryRegion>, need: int)
    ensures
        0 <= fit_index(s, need) <= s.len(),
        forall|k: int| 0 <= k < fit_index(s, need) ==> (#[trigger] s[k]).end - s[k].start < need,
        fit_index(s, need) < s.len() ==> s[fit_index(s, need)].end - s[fit_index(s, need)].start >= need,
    decreases s.len(),
{
    if s.len() > 0 {
        lemma_fit_index(s.drop_last(), need);
        assert forall|k: int| 0 <= k < fit_index(s, need) && k < s.len() - 1 implies s.drop_last()[k] == s[k] by {}
    }
}

/// Ranges of the kernel's virtual space with their start not above their end.
pub open spec fn kernel_free_wf(s: Seq<MemoryRegion>) -> bool {
    forall|i: int| 0 <= i < s.len() ==> (#[trigger] s[i]).start <= s[i].end
}

pub open spec fn kernel_pages_for(size: int) -> int {
    size / 4096 + if size % 4096 != 0 { 1int } else { 0int }
}

/// The kernel virtual page allocator.
pub struct VenixPageAllocator {
    pub hhdm_offset: u64,
    /// Runt mode: the first top-level entry of the higher half mapping nothing.
    pub p4_first_completely_free: u64,
    /// Full mode: unused ranges.
    pub free_regions: Option<Vec<MemoryRegion>>,
}

impl VenixPageAllocator {
    /// The unused ranges, `None` in runt mode.
    pub open spec fn free_opt(&self) -> Option<Seq<MemoryRegion>> {
        match self.free_regions {
            Some(v) => Some(v@),
            None => None,
        }
    }

    /// A runt-mode allocator, given which of the 512 top-level entries are
    /// unused; some entry of the higher half must be unused.
    pub fn new(p4_unused: &Vec<bool>, hhdm_offset: u64) -> (r: Self)
        requires
            p4_unused@.len() <= 512,
            exists|i: int| 256 <= i < p4_unused@.len() && p4_unused@[i],
        ensures
            r.hhdm_offset == hhdm_offset,
            r.free_regions is None,
            exists|i: int|
                256 <= i < p4_unused@.len() && p4_unused@[i] && (forall|k: int| 256 <= k < i ==> !p4_unused@[k])
                    && r.p4_first_completely_free == sign_extend_48((i * P4_SPAN) as u64),
    {
        let mut i: usize = 256;
        while i < p4_unused.len() && !p4_unused[i]
            invariant
                256 <= i <= p4_unused.len(),
                p4_unused@.len() <= 512,
                exists|j: int| i <= j < p4_unused@.len() && p4_unused@[j],
                forall|k: int| 256 <= k < i ==> !p4_unused@[k],
            decreases p4_unused.len() - i,
        {
            i = i + 1;
        }
        let first = (i as u64) * P4_SPAN;
        VenixPageAllocator { hhdm_offset, p4_first_completely_free: canonical(first), free_regions: None }
    }

    /// The unused ranges of the higher half below the table at `page_table`,
    /// which maps from `offset_above` at `level`, reading the tables from
    /// `tables` (each by its address in the direct map).
    pub fn gather_unused_regions_from_page(&self, level: u8, offset_above: u64, page_table: u64,
        tables: &BTreeMap<u64, Vec<PageTableEntryInfo>>) -> (r: Vec<MemoryRegion>)
        requires
            valid_level(level),
            offset_above + 512 * level_span(level) <= WALK_LIMIT,
            walkable(level, offset_above as int, page_table, self.hhdm_offset, tables@),
        ensures
            r@ == gathered(level, offset_above as int, page_table, self.hhdm_offset, tables@),
        decreases level,
    {
        let ghost hhdm = self.hhdm_offset;
        let t: &Vec<PageTableEntryInfo> = match tables.get(&page_table) {
            Some(t) => t,
            None => {
                assert(false);
                return Vec::new();
            },
        };
        assert(t@ == tables@[page_table]@);
        let mut present: Vec<bool> = Vec::new();
        let mut i: usize = 0;
        while i < t.len()
            invariant
                i <= t@.len(),
                present@ == presents(t@).take(i as int),
            decreases t@.len() - i,
        {
            present.push(t[i].present);
            assert(presents(t@).take(i + 1) =~= presents(t@).take(i as int).push(t@[i as int].present));
            i = i + 1;
        }
        assert(present@ =~= presents(t@));
        assert(level_span(level) <= P4_SPAN);
        let mut own = unused_regions_in_table(level, offset_above, &present);
        let mut children: Vec<MemoryRegion> = Vec::new();
        let mut j: usize = 0;
        while j < t.len()
            invariant
                j <= t@.len(),
                t@.len() <= 512,
                t@ == tables@[page_table]@,
                valid_level(level),
                hhdm == self.hhdm_offset,
                offset_above + 512 * level_span(level) <= WALK_LIMIT,
                walkable_children(level, offset_above as int, t@, hhdm, tables@, t@.len() as int),
                children@ == gathered_children(level, offset_above as int, t@, hhdm, tables@, j as int),
            decreases t@.len() - j,
        {
            let e = t[j];
            let descend = level >= 2 && e.present && (if level == 4 { j >= 256 } else { !e.huge });
            if descend {
                proof {
                    lemma_walkable_child(level, offset_above as int, t@, hhdm, tables@, t@.len() as int, j as int);
                    assert(j * level_span(level) + level_span(level) <= 512 * level_span(level)) by (nonlinear_arith)
                        requires
                            j < 512,
                            level_span(level) >= 0,
                    ;
                }
                let child_off = entry_base(level, offset_above, j as u64);
                let sub = self.gather_unused_regions_from_page(level - 1, child_off, e.addr + self.hhdm_offset, tables);
                append_regions(&mut children, &sub);
            }
            j = j + 1;
        }
        let folded = fold_child_regions(&children);
        append_regions(&mut own, &folded);
        own
    }

    /// Enter full mode with the unused ranges gathered from the page tables,
    /// walked from the top-level table at `p4`.
    pub fn move_to_full_mode(&mut self, p4: u64, tables: &BTreeMap<u64, Vec<PageTableEntryInfo>>)
        requires
            walkable(4, 0, p4, old(self).hhdm_offset, tables@),
        ensures
            final(self).hhdm_offset == old(self).hhdm_offset,
            final(self).p4_first_completely_free == old(self).p4_first_completely_free,
            final(self).free_regions is Some,
            final(self).free_regions->0@ == gathered(4, 0, p4, old(self).hhdm_offset, tables@),
    {
        let regions = self.gather_unused_regions_from_page(4, 0, p4, tables);
        self.free_regions = Some(regions);
    }

    /// First virtual address of `size` bytes of fresh kernel pages. Full mode:
    /// first fit, removing a range that fits exactly and shrinking a larger one
    /// from its start; running out is fatal. Runt mode: the first free
    /// top-level range, which must be able to hold the request.
    pub fn get_page_range(&mut self, size: u64) -> (r: u64)
        requires
            size <= u64::MAX - 4095,
            old(self).free_regions is Some ==> {
                let s = old(self).free_regions->Some_0@;
                &&& kernel_free_wf(s)
                &&& fit_index(s, kernel_pages_for(size as int) * 4096) < s.len()
            },
            old(self).free_regions is None ==> kernel_pages_for(size as int) <= P4_SPAN,
        ensures
            final(self).hhdm_offset == old(self).hhdm_offset,
            final(self).p4_first_completely_free == old(self).p4_first_completely_free,
            old(self).free_regions is None ==> {
                &&& final(self).free_regions is None
                &&& r == old(self).p4_first_completely_free
            },
            old(self).free_regions is Some ==> {
                let s = old(self).free_regions->Some_0@;
                let need = kernel_pages_for(size as int) * 4096;
                let i = fit_index(s, need);
                &&& r == sign_extend_48(s[i].start)
                &&& final(self).free_regions is Some
                &&& final(self).free_regions->Some_0@ == if s[i].end - s[i].start == need {
                    s.remove(i)
                } else {
                    s.update(i, MemoryRegion { start: (s[i].start + need) as u64, end: s[i].end })
                }
                &&& kernel_free_wf(final(self).free_regions->Some_0@)
            },
    {
        let size_in_pages = size / 4096 + if size % 4096 != 0 { 1 } else { 0 };
        match self.free_regions.take() {
            Some(mut free_regions) => {
                let need = size_in_pages * 4096;
                let ghost s = free_regions@;
                proof {
                    lemma_fit_index(s, need as int);
                }
                let ghost i0 = fit_index(s, need as int);
                let mut idx: usize = 0;
                while idx < free_regions.len()
                    invariant
                        0 <= idx <= i0,
                        i0 < s.len(),
                        i0 == fit_index(s, need as int),
                        free_regions@ == s,
                        old(self).free_regions is Some,
                        s == old(self).free_regions->Some_0@,
                        need == kernel_pages_for(size as int) * 4096,
                        self.hhdm_offset == old(self).hhdm_offset,
                        self.p4_first_completely_free == old(self).p4_first_completely_free,
                        forall|k: int| 0 <= k < i0 ==> (#[trigger] s[k]).end - s[k].start < need,
                        s[i0].end - s[i0].start >= need,
                        kernel_free_wf(s),
                    decreases free_regions.len() - idx,
                {
                    let reg = free_regions[idx];
                    if reg.end - reg.start == need {
                        let region = free_regions.remove(idx);
                        proof {
                            assert(kernel_free_wf(free_regions@)) by {
                                assert forall|k: int| 0 <= k < free_regions@.len() implies (#[trigger] free_regions@[k]).start <= free_regions@[k].end by {
                                    if k < idx {
                                        assert(free_regions@[k] == s[k]);
                                    } else {
                                        assert(free_regions@[k] == s[k + 1]);
                                    }
                                }
                            }
                        }
                        self.free_regions = Some(free_regions);
                        return canonical(region.start);
                    } else if reg.end - reg.start > need {
                        let start = reg.start;
                        free_regions.set(idx, MemoryRegion { start: start + need, end: reg.end });
                        self.free_regions = Some(free_regions);
                        return canonical(start);
                    }
                    idx = idx + 1;
                }
                assert(false);
                0
            },
            None => self.p4_first_completely_free,
        }
    }
}

} // verus!
