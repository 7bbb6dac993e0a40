//! A user address space: the free ranges of the lower half that can still be
//! handed out, and the shadow map from each mapped virtual page to the frame
//! behind it.
use vstd::prelude::*;
use std::collections::BTreeMap;
use crate::memory::MemoryRegion;
use crate::memory::frame_allocator::{covers, lemma_covers_remove, lemma_covers_insert, lemma_covers_update};
use crate::memory::page_allocator::{PageTableEntryInfo, level_span, valid_level, span_of, WALK_LIMIT};

verus! {

/// Size of the range one top-level page-table entry maps.
pub const P4_SIZE: u64 = 0x80_0000_0000;

/// First address handed out to user space.
pub const USER_SPACE_START: u64 = 0x100000;

/// End of the range handed out to user space.
pub const USER_SPACE_END: u64 = 0x7F80_0000_0000;

/// A virtual range of user space that is already in use.
#[derive(Debug, Clone, Copy, PartialEq, Eq, Structural)]
pub struct RegionInUse {
    pub addr: u64,
}

/// Whether `k` is a page of `[start, end)` counted from `start`.
pub open spec fn page_of(start: int, end: int, k: int) -> bool {
    start <= k < end && (k - start) % 4096 == 0
}

/// The shadow map after every page of `[start, end)` is entered with frame 0.
pub open spec fn map_pages(m: Map<u64, u64>, start: int, end: int) -> Map<u64, u64> {
    Map::new(
        |k: u64| m.contains_key(k) || page_of(start, end, k as int),
        |k: u64| if page_of(start, end, k as int) { 0u64 } else { m[k] },
    )
}

/// Pages needed for `size` bytes.
pub open spec fn pages_for(size: int) -> int {
    size / 4096 + if size % 4096 != 0 { 1int } else { 0int }
}

/// A user free range: page aligned, non-empty, inside user space.
pub open spec fn user_region_ok(r: MemoryRegion) -> bool {
    &&& 4096 <= r.start
    &&& r.start % 4096 == 0
    &&& r.end % 4096 == 0
    &&& r.start < r.end
    &&& r.end <= USER_SPACE_END
}

pub open spec fn user_free_wf(s: Seq<MemoryRegion>) -> bool {
    forall|i: int| 0 <= i < s.len() ==> user_region_ok(#[trigger] s[i])
}

/// The region a first-fit search moves past or settles on, with a start of 0
/// read as 4096.
pub open spec fn fix_zero(r: MemoryRegion) -> MemoryRegion {
    if r.start == 0 {
        MemoryRegion { start: 4096, end: r.end }
    } else {
        r
    }
}

/// Index of the first free range with room for `need` bytes.
pub open spec fn first_fit(s: Seq<MemoryRegion>, need: int) -> int
    decreases s.len(),
{
    if s.len() == 0 {
        0
    } else {
        let d = first_fit(s.drop_last(), need);
        if d < s.len() - 1 {
            d
        } else if fix_zero(s.last()).end - fix_zero(s.last()).start >= need {
            s.len() - 1
        } else {
            s.len() as int
        }
    }
}

/// The free list after a first-fit allocation of `need` bytes that settled on
/// range `i`: every range up to `i` has a zero start read as 4096, then range
/// `i` is removed when it fits exactly, or shrunk from its start.
pub open spec fn first_fit_after(s: Seq<MemoryRegion>, i: int, need: int) -> Seq<MemoryRegion> {
    let fixed = Seq::new(s.len(), |k: int| if k <= i { fix_zero(s[k]) } else { s[k] });
    if fixed[i].end - fixed[i].start == need {
        fixed.remove(i)
    } else {
        fixed.update(i, MemoryRegion { start: (fixed[i].start + need) as u64, end: fixed[i].end })
    }
}

/// How `get_page_range_from_start` treats a free range, given the page-aligned
/// start `a` and end `e` of the request: 1 the range is exactly the request,
/// 2 the request is its tail, 3 the request is strictly inside it, 4 the
/// request is its head, 0 none of these.
pub open spec fn carve_case(r: MemoryRegion, a: int, e: int) -> int {
    if r.start == a && r.end - r.start == e - a {
        1
    } else if r.start < a && r.start < e && r.end == e {
        2
    } else if r.start < a && r.start < e && r.end > e {
        3
    } else if r.start == a && r.end > e {
        4
    } else {
        0
    }
}

/// Index of the first free range that a request `[a, e)` can be carved from.
pub open spec fn first_carve(s: Seq<MemoryRegion>, a: int, e: int) -> int
    decreases s.len(),
{
    if s.len() == 0 {
        0
    } else {
        let d = first_carve(s.drop_last(), a, e);
        if d < s.len() - 1 {
            d
        } else if carve_case(s.last(), a, e) != 0 {
            s.len() - 1
        } else {
            s.len() as int
        }
    }
}

/// The free list after carving `[a, e)` out of range `i`.
pub open spec fn carve_after(s: Seq<MemoryRegion>, i: int, a: int, e: int) -> Seq<MemoryRegion> {
    let r = s[i];
    let c = carve_case(r, a, e);
    if c == 1 {
        s.remove(i)
    } else if c == 2 {
        s.update(i, MemoryRegion { start: r.start, end: a as u64 })
    } else if c == 3 {
        s.update(i, MemoryRegion { start: r.start, end: a as u64 }).push(
            MemoryRegion { start: e as u64, end: r.end },
        )
    } else {
        s.update(i, MemoryRegion { start: e as u64, end: r.end })
    }
}

/// Page-aligned start of a request beginning at `v`.
pub open spec fn req_start(v: int) -> int {
    v - v % 4096
}

/// Page-aligned end of a request of `size` bytes beginning at `v`.
pub open spec fn req_end(v: int, size: int) -> int {
    if (v + size) % 4096 != 0 {
        v + size + (4096 - (v + size) % 4096)
    } else {
        v + size
    }
}

pub(crate) proof fn lemma_first_fit(s: Seq<MemoryRegion>, need: int)
    ensures
        0 <= first_fit(s, need) <= s.len(),
        forall|k: int|
            0 <= k < first_fit(s, need) ==> fix_zero(#[trigger] s[k]).end - fix_zero(s[k]).start
                < need,
        first_fit(s, need) < s.len() ==> fix_zero(s[first_fit(s, need)]).end - fix_zero(
            s[first_fit(s, need)],
        ).start >= need,
    decreases s.len(),
{
    if s.len() > 0 {
        lemma_first_fit(s.drop_last(), need);
        assert forall|k: int| 0 <= k < first_fit(s, need) && k < s.len() - 1 implies s.drop_last()[k] == s[k] by {}
    }
}

proof fn lemma_first_carve(s: Seq<MemoryRegion>, a: int, e: int)
    ensures
        0 <= first_carve(s, a, e) <= s.len(),
        forall|k: int| 0 <= k < first_carve(s, a, e) ==> carve_case(#[trigger] s[k], a, e) == 0,
        first_carve(s, a, e) < s.len() ==> carve_case(s[first_carve(s, a, e)], a, e) != 0,
    decreases s.len(),
{
    if s.len() > 0 {
        lemma_first_carve(s.drop_last(), a, e);
        assert forall|k: int| 0 <= k < first_carve(s, a, e) && k < s.len() - 1 implies s.drop_last()[k] == s[k] by {}
    }
}

/// Free ranges that do not overlap one another (in any order).
pub open spec fn user_free_disjoint(s: Seq<MemoryRegion>) -> bool {
    forall|i: int, j: int| 0 <= i < s.len() && 0 <= j < s.len() && i != j
        ==> (#[trigger] s[i]).end <= (#[trigger] s[j]).start || s[j].end <= s[i].start
}

proof fn lemma_disjoint_update_within(s: Seq<MemoryRegion>, i: int, p: MemoryRegion)
    requires
        user_free_disjoint(s),
        0 <= i < s.len(),
        s[i].start <= p.start,
        p.end <= s[i].end,
    ensures
        user_free_disjoint(s.update(i, p)),
{
    let t = s.update(i, p);
    assert forall|x: int, y: int| 0 <= x < t.len() && 0 <= y < t.len() && x != y
        implies (#[trigger] t[x]).end <= (#[trigger] t[y]).start || t[y].end <= t[x].start by {
        assert(s[x].end <= s[y].start || s[y].end <= s[x].start);
    }
}

proof fn lemma_disjoint_remove(s: Seq<MemoryRegion>, i: int)
    requires
        user_free_disjoint(s),
        0 <= i < s.len(),
    ensures
        user_free_disjoint(s.remove(i)),
{
    let t = s.remove(i);
    assert forall|x: int, y: int| 0 <= x < t.len() && 0 <= y < t.len() && x != y
        implies (#[trigger] t[x]).end <= (#[trigger] t[y]).start || t[y].end <= t[x].start by {
        let x2 = if x < i { x } else { x + 1 };
        let y2 = if y < i { y } else { y + 1 };
        assert(t[x] == s[x2] && t[y] == s[y2]);
        assert(s[x2].end <= s[y2].start || s[y2].end <= s[x2].start);
    }
}

proof fn lemma_disjoint_push(s: Seq<MemoryRegion>, p: MemoryRegion)
    requires
        user_free_disjoint(s),
        forall|k: int| 0 <= k < s.len() ==> (#[trigger] s[k]).end <= p.start || p.end <= s[k].start,
    ensures
        user_free_disjoint(s.push(p)),
{
    let t = s.push(p);
    assert forall|x: int, y: int| 0 <= x < t.len() && 0 <= y < t.len() && x != y
        implies (#[trigger] t[x]).end <= (#[trigger] t[y]).start || t[y].end <= t[x].start by {
        if x < s.len() && y < s.len() {
            assert(s[x].end <= s[y].start || s[y].end <= s[x].start);
        } else if x < s.len() {
            assert(t[x] == s[x]);
        } else {
            assert(t[y] == s[y]);
        }
    }
}

/// A first-fit allocation keeps the free ranges apart.
proof fn lemma_first_fit_after_disjoint(s: Seq<MemoryRegion>, i: int, need: int)
    requires
        user_free_wf(s),
        user_free_disjoint(s),
        0 <= i < s.len(),
        0 <= need <= s[i].end - s[i].start,
    ensures
        user_free_disjoint(first_fit_after(s, i, need)),
{
    let fixed = Seq::new(s.len(), |k: int| if k <= i { fix_zero(s[k]) } else { s[k] });
    assert forall|k: int| 0 <= k < s.len() implies fixed[k] == s[k] by {
        assert(user_region_ok(s[k]));
    }
    assert(fixed =~= s);
    if s[i].end - s[i].start == need {
        lemma_disjoint_remove(s, i);
    } else {
        lemma_disjoint_update_within(s, i, MemoryRegion { start: (s[i].start + need) as u64, end: s[i].end });
    }
}

/// Carving a request `[a, e)` out of a free list whose ranges do not
/// overlap takes exactly the request: it was all free, no free range left
/// overlaps it, and an address is free afterwards exactly when it was free
/// before and lies outside `[a, e)`.
pub proof fn lemma_carve_takes_exactly(s: Seq<MemoryRegion>, a: int, e: int)
    requires
        user_free_wf(s),
        user_free_disjoint(s),
        0 <= a <= e,
        first_carve(s, a, e) < s.len(),
    ensures
        ({
            let t = carve_after(s, first_carve(s, a, e), a, e);
            &&& forall|x: int| a <= x < e ==> covers(s, x)
            &&& forall|k: int| 0 <= k < t.len() ==> (#[trigger] t[k]).end <= a || e <= t[k].start
            &&& forall|x: int| covers(t, x) <==> (covers(s, x) && !(a <= x < e))
            &&& user_free_disjoint(t)
        }),
{
    lemma_first_carve(s, a, e);
    let i = first_carve(s, a, e);
    let r = s[i];
    let c = carve_case(r, a, e);
    assert(user_region_ok(s[i]));
    assert(r.start <= a && e <= r.end);
    let t = carve_after(s, i, a, e);
    let rest = s.remove(i);
    assert forall|x: int| a <= x < e implies covers(s, x) by {
        assert(s[i].start <= x < s[i].end);
    }
    // the other ranges lie wholly before or after `r`, so away from [a, e)
    assert forall|k: int| 0 <= k < rest.len() implies (#[trigger] rest[k]).end <= a || e <= rest[k].start by {
        let k2 = if k < i { k } else { k + 1 };
        assert(rest[k] == s[k2]);
        assert(k2 != i);
        assert(s[k2].end <= s[i].start || s[i].end <= s[k2].start);
    }
    assert forall|x: int| covers(rest, x) implies !(a <= x < e) by {
        let k = choose|k: int| 0 <= k < rest.len() && (#[trigger] rest[k]).start <= x < rest[k].end;
        assert(rest[k].end <= a || e <= rest[k].start);
    }
    let p1 = MemoryRegion { start: r.start, end: a as u64 };
    let p2 = MemoryRegion { start: e as u64, end: r.end };
    if c == 1 {
        lemma_disjoint_remove(s, i);
        assert(t == rest);
        assert forall|x: int| covers(t, x) <==> (covers(s, x) && !(a <= x < e)) by {
            lemma_covers_remove(s, i, x);
        }
    } else if c == 2 {
        lemma_disjoint_update_within(s, i, p1);
        assert forall|k: int| 0 <= k < t.len() implies (#[trigger] t[k]).end <= a || e <= t[k].start by {
            if k != i {
                let k2 = if k < i { k } else { k - 1 };
                assert(t[k] == s[k]);
                assert(k < i ==> rest[k] == s[k]);
                assert(k > i ==> rest[k - 1] == s[k]);
            }
        }
        assert forall|x: int| covers(t, x) <==> (covers(s, x) && !(a <= x < e)) by {
            lemma_covers_update(s, i, p1, x);
            lemma_covers_remove(s, i, x);
        }
    } else if c == 3 {
        let u = s.update(i, p1);
        lemma_disjoint_update_within(s, i, p1);
        assert forall|k: int| 0 <= k < u.len() implies (#[trigger] u[k]).end <= p2.start || p2.end <= u[k].start by {
            if k != i {
                assert(u[k] == s[k]);
                assert(s[k].end <= s[i].start || s[i].end <= s[k].start);
            }
        }
        lemma_disjoint_push(u, p2);
        assert(t == u.push(p2));
        assert(u.push(p2) =~= u.insert(u.len() as int, p2));
        assert forall|k: int| 0 <= k < t.len() implies (#[trigger] t[k]).end <= a || e <= t[k].start by {
            if k != i && k < s.len() {
                assert(t[k] == s[k]);
                assert(k < i ==> rest[k] == s[k]);
                assert(k > i ==> rest[k - 1] == s[k]);
            }
        }
        assert forall|x: int| covers(t, x) <==> (covers(s, x) && !(a <= x < e)) by {
            lemma_covers_insert(u, u.len() as int, p2, x);
            lemma_covers_update(s, i, p1, x);
            lemma_covers_remove(s, i, x);
        }
    } else {
        lemma_disjoint_update_within(s, i, p2);
        assert forall|k: int| 0 <= k < t.len() implies (#[trigger] t[k]).end <= a || e <= t[k].start by {
            if k != i {
                assert(t[k] == s[k]);
                assert(k < i ==> rest[k] == s[k]);
                assert(k > i ==> rest[k - 1] == s[k]);
            }
        }
        assert forall|x: int| covers(t, x) <==> (covers(s, x) && !(a <= x < e)) by {
            lemma_covers_update(s, i, p2, x);
            lemma_covers_remove(s, i, x);
        }
    }
}

/// A mapped user page: its virtual address and the frame behind it.
#[derive(Debug, Clone, Copy, PartialEq, Eq, Structural)]
pub struct PageVirtPhys {
    pub virt_start: u64,
    pub phys_start: u64,
}

/// Whether the walk over user space looks at entry `i` of a table at
/// `level`: it must be present, and at the top level in the lower half.
pub open spec fn user_entry_walked(level: u8, i: int, e: PageTableEntryInfo) -> bool {
    e.present && (level != 4 || i < 256)
}

/// The user pages mapped below the table at `table` (an address in the
/// direct map at `hhdm`), which maps from `offset_above` at `level`, in
/// table order.
pub open spec fn mapped_pages(level: u8, offset_above: int, table: u64, hhdm: u64,
    tables: Map<u64, Vec<PageTableEntryInfo>>) -> Seq<PageVirtPhys>
    decreases level, tables[table]@.len() as int + 1,
{
    mapped_children(level, offset_above, tables[table]@, hhdm, tables, tables[table]@.len() as int)
}

pub open spec fn mapped_children(level: u8, offset_above: int, t: Seq<PageTableEntryInfo>, hhdm: u64,
    tables: Map<u64, Vec<PageTableEntryInfo>>, n: int) -> Seq<PageVirtPhys>
    decreases level, n,
{
    if n <= 0 || level < 1 || level > 4 {
        Seq::empty()
    } else {
        let prev = mapped_children(level, offset_above, t, hhdm, tables, n - 1);
        let i = n - 1;
        if !user_entry_walked(level, i, t[i]) {
            prev
        } else if level == 1 {
            prev.push(PageVirtPhys { virt_start: (offset_above + i * 4096) as u64, phys_start: t[i].addr })
        } else {
            prev + mapped_pages((level - 1) as u8, offset_above + i * level_span(level),
                (t[i].addr + hhdm) as u64, hhdm, tables)
        }
    }
}

/// Whether every table the walk over user space reads is in `tables`, has
/// at most 512 entries, and is reached without overflow.
pub open spec fn user_walkable(level: u8, offset_above: int, table: u64, hhdm: u64,
    tables: Map<u64, Vec<PageTableEntryInfo>>) -> bool
    decreases level, tables[table]@.len() as int + 1,
{
    &&& tables.contains_key(table)
    &&& tables[table]@.len() <= 512
    &&& user_walkable_children(level, offset_above, tables[table]@, hhdm, tables, tables[table]@.len() as int)
}

pub open spec fn user_walkable_children(level: u8, offset_above: int, t: Seq<PageTableEntryInfo>, hhdm: u64,
    tables: Map<u64, Vec<PageTableEntryInfo>>, n: int) -> bool
    decreases level, n,
{
    if n <= 0 || level < 2 || level > 4 {
        true
    } else {
        &&& user_walkable_children(level, offset_above, t, hhdm, tables, n - 1)
        &&& user_entry_walked(level, n - 1, t[n - 1]) ==> {
            &&& t[n - 1].addr + hhdm <= u64::MAX
            &&& user_walkable((level - 1) as u8, offset_above + (n - 1) * level_span(level),
                    (t[n - 1].addr + hhdm) as u64, hhdm, tables)
        }
    }
}

proof fn lemma_user_walkable_child(level: u8, offset_above: int, t: Seq<PageTableEntryInfo>, hhdm: u64,
    tables: Map<u64, Vec<PageTableEntryInfo>>, n: int, i: int)
    requires
        user_walkable_children(level, offset_above, t, hhdm, tables, n),
        0 <= i < n,
        2 <= level <= 4,
        user_entry_walked(level, i, t[i]),
    ensures
        t[i].addr + hhdm <= u64::MAX,
        user_walkable((level - 1) as u8, offset_above + i * level_span(level), (t[i].addr + hhdm) as u64, hhdm, tables),
    decreases n,
{
    if i < n - 1 {
        lemma_user_walkable_child(level, offset_above, t, hhdm, tables, n - 1, i);
    }
}

/// The user pages mapped below the table at `page_table`, which maps from
/// `offset_above` at `level`, reading the tables from `tables` (each by its
/// address in the direct map at `hhdm_offset`): what copying an address
/// space copies.
pub fn user_pages_mapped(level: u8, offset_above: u64, page_table: u64, hhdm_offset: u64,
    tables: &BTreeMap<u64, Vec<PageTableEntryInfo>>) -> (r: Vec<PageVirtPhys>)
    requires
        valid_level(level),
        offset_above + 512 * level_span(level) <= WALK_LIMIT,
        user_walkable(level, offset_above as int, page_table, hhdm_offset, tables@),
    ensures
        r@ == mapped_pages(level, offset_above as int, page_table, hhdm_offset, tables@),
    decreases level,
{
    let t: &Vec<PageTableEntryInfo> = match tables.get(&page_table) {
        Some(t) => t,
        None => {
            assert(false);
            return Vec::new();
        },
    };
    assert(t@ == tables@[page_table]@);
    let span = span_of(level);
    let mut out: Vec<PageVirtPhys> = Vec::new();
    let mut i: usize = 0;
    while i < t.len()
        invariant
            i <= t@.len(),
            t@.len() <= 512,
            t@ == tables@[page_table]@,
            valid_level(level),
            span == level_span(level),
            offset_above + 512 * level_span(level) <= WALK_LIMIT,
            user_walkable_children(level, offset_above as int, t@, hhdm_offset, tables@, t@.len() as int),
            out@ == mapped_children(level, offset_above as int, t@, hhdm_offset, tables@, i as int),
        decreases t@.len() - i,
    {
        let e = t[i];
        proof {
            assert(i * level_span(level) + level_span(level) <= 512 * level_span(level)) by (nonlinear_arith)
                requires
                    i < 512,
                    level_span(level) >= 0,
            ;
        }
        if e.present && (level != 4 || i < 256) {
            if level == 1 {
                out.push(PageVirtPhys { virt_start: offset_above + (i as u64) * 4096, phys_start: e.addr });
            } else {
                proof {
                    lemma_user_walkable_child(level, offset_above as int, t@, hhdm_offset, tables@, t@.len() as int, i as int);
                }
                let sub = user_pages_mapped(level - 1, offset_above + (i as u64) * span, e.addr + hhdm_offset,
                    hhdm_offset, tables);
                let mut k: usize = 0;
                let ghost before = out@;
                while k < sub.len()
                    invariant
                        k <= sub@.len(),
                        out@ == before + sub@.take(k as int),
                    decreases sub@.len() - k,
                {
                    out.push(sub[k]);
                    assert(sub@.take(k + 1) =~= sub@.take(k as int).push(sub@[k as int]));
                    k = k + 1;
                }
                assert(sub@.take(k as int) =~= sub@);
            }
        }
        i = i + 1;
    }
    out
}

/// An address space.
pub struct AddressSpace {
    /// Physical address of the top-level page table.
    pub pt4: u64,
    /// Ranges of user space not yet handed out.
    pub free_regions: Vec<MemoryRegion>,
    /// Each mapped virtual page, with the frame behind it (0 until assigned).
    pub mapped_regions: BTreeMap<u64, u64>,
}

impl AddressSpace {
    pub open spec fn wf(&self) -> bool {
        user_free_wf(self.free_regions@)
    }

    /// A fresh address space whose top-level table is at `pt4`: all of user
    /// space free, nothing mapped.
    pub fn new(pt4: u64) -> (r: Self)
        ensures
            r.wf(),
            r.pt4 == pt4,
            r.free_regions@ == seq![MemoryRegion { start: USER_SPACE_START, end: USER_SPACE_END }],
            r.mapped_regions@ == Map::<u64, u64>::empty(),
            user_free_disjoint(r.free_regions@),
    {
        let mut free_regions = Vec::new();
        free_regions.push(MemoryRegion { start: USER_SPACE_START, end: P4_SIZE * 255 });
        AddressSpace { pt4, free_regions, mapped_regions: BTreeMap::new() }
    }

    /// Physical address of the top-level table.
    pub fn get_pt4(&self) -> (r: u64)
        ensures
            r == self.pt4,
    {
        self.pt4
    }

    /// Enter every page of a range in the shadow map, with frame 0.
    fn map_a_region(&mut self, region: MemoryRegion)
        requires
            region.start <= region.end,
            (region.end - region.start) % 4096 == 0,
        ensures
            final(self).pt4 == old(self).pt4,
            final(self).free_regions@ == old(self).free_regions@,
            final(self).mapped_regions@ == map_pages(
                old(self).mapped_regions@,
                region.start as int,
                region.end as int,
            ),
    {
        let ghost m0 = self.mapped_regions@;
        let ghost n: int = (region.end - region.start) / 4096;
        let mut pa = region.start;
        let ghost mut k: int = 0;
        assert(map_pages(m0, region.start as int, region.start as int) =~= m0);
        while pa < region.end
            invariant
                region.end - region.start == n * 4096,
                0 <= k <= n,
                pa == region.start + k * 4096,
                self.pt4 == old(self).pt4,
                self.free_regions@ == old(self).free_regions@,
                self.mapped_regions@ == map_pages(m0, region.start as int, pa as int),
            decreases n - k,
        {
            self.mapped_regions.insert(pa, 0);
            proof {
                assert(self.mapped_regions@ =~= map_pages(m0, region.start as int, pa + 4096));
                k = k + 1;
            }
            pa = pa + 4096;
        }
    }

    /// Record the frame behind a mapped page; a page that is not mapped is left
    /// alone.
    pub fn assign_virt_phys(&mut self, virt: u64, phys: u64)
        ensures
            final(self).pt4 == old(self).pt4,
            final(self).free_regions@ == old(self).free_regions@,
            final(self).mapped_regions@ == (if old(self).mapped_regions@.contains_key(virt) {
                old(self).mapped_regions@.insert(virt, phys)
            } else {
                old(self).mapped_regions@
            }),
    {
        if self.mapped_regions.contains_key(&virt) {
            self.mapped_regions.insert(virt, phys);
        }
    }

    /// Hand out `size` bytes, rounded up to whole pages, from the first free
    /// range with room (a range starting at 0 is read as starting at 4096).
    /// The pages are entered in the shadow map and the start is returned.
    /// Running out of user space is fatal, so some range must have room.
    pub fn get_page_range(&mut self, size: u64) -> (r: u64)
        requires
            old(self).wf(),
            size <= u64::MAX - 4095,
            first_fit(old(self).free_regions@, pages_for(size as int) * 4096) < old(
                self,
            ).free_regions@.len(),
        ensures
            final(self).wf(),
            final(self).pt4 == old(self).pt4,
            ({
                let s = old(self).free_regions@;
                let need = pages_for(size as int) * 4096;
                let i = first_fit(s, need);
                &&& r == fix_zero(s[i]).start
                &&& r % 4096 == 0
                &&& r + need <= USER_SPACE_END
                &&& final(self).free_regions@ == first_fit_after(s, i, need)
                &&& final(self).mapped_regions@ == map_pages(
                    old(self).mapped_regions@,
                    r as int,
                    r + need,
                )
            }),
            user_free_disjoint(old(self).free_regions@) ==> user_free_disjoint(final(self).free_regions@),
    {
        let size_in_pages = size / 4096 + if size % 4096 != 0 { 1 } else { 0 };
        let need = size_in_pages * 4096;
        let ghost s = self.free_regions@;
        proof {
            lemma_first_fit(s, need as int);
            let i = first_fit(s, need as int);
            assert(user_region_ok(s[i]));
            if user_free_disjoint(s) {
                lemma_first_fit_after_disjoint(s, i, need as int);
            }
        }
        let ghost i0 = first_fit(s, need as int);
        let mut idx: usize = 0;
        while idx < self.free_regions.len()
            invariant
                0 <= idx <= i0,
                i0 < s.len(),
                s == old(self).free_regions@,
                i0 == first_fit(s, need as int),
                need == pages_for(size as int) * 4096,
                self.free_regions@.len() == s.len(),
                forall|k: int| 0 <= k < idx ==> #[trigger] self.free_regions@[k] == fix_zero(s[k]),
                forall|k: int| idx <= k < s.len() ==> #[trigger] self.free_regions@[k] == s[k],
                forall|k: int| 0 <= k < i0 ==> fix_zero(#[trigger] s[k]).end - fix_zero(s[k]).start < need,
                fix_zero(s[i0]).end - fix_zero(s[i0]).start >= need,
                user_free_wf(s),
                user_free_disjoint(s) ==> user_free_disjoint(first_fit_after(s, i0, need as int)),
                self.pt4 == old(self).pt4,
                self.mapped_regions@ == old(self).mapped_regions@,
            decreases self.free_regions.len() - idx,
        {
            assert(user_region_ok(s[idx as int]));
            if self.free_regions[idx].start == 0 {
                let e = self.free_regions[idx].end;
                self.free_regions.set(idx, MemoryRegion { start: 4096, end: e });
            }
            let reg = self.free_regions[idx];
            if reg.end - reg.start == need {
                let region = self.free_regions.remove(idx);
                proof {
                    assert(self.free_regions@ =~= first_fit_after(s, i0, need as int));
                    assert forall|k: int| 0 <= k < self.free_regions@.len() implies user_region_ok(
                        #[trigger] self.free_regions@[k],
                    ) by {
                        if k < idx {
                            assert(user_region_ok(s[k]));
                        } else {
                            assert(user_region_ok(s[k + 1]));
                        }
                    }
                }
                self.map_a_region(region);
                assert(idx == i0);
                assert(region.start == fix_zero(s[i0]).start);
                assert(self.free_regions@ == first_fit_after(s, i0, need as int));
                return region.start;
            } else if reg.end - reg.start > need {
                let start = reg.start;
                self.free_regions.set(idx, MemoryRegion { start: start + need, end: reg.end });
                proof {
                    assert(self.free_regions@ =~= first_fit_after(s, i0, need as int));
                    assert forall|k: int| 0 <= k < self.free_regions@.len() implies user_region_ok(
                        #[trigger] self.free_regions@[k],
                    ) by {
                        assert(user_region_ok(s[k]));
                    }
                }
                self.map_a_region(MemoryRegion { start, end: start + need });
                return start;
            }
            idx = idx + 1;
        }
        assert(false);
        0
    }

    /// Hand out the pages covering `[virt, virt + size)`, which must lie in one
    /// free range: the range is removed, shortened or split around them, and
    /// they are entered in the shadow map. When no free range holds them the
    /// request fails, naming the page-aligned start.
    pub fn get_page_range_from_start(&mut self, virt: u64, size: u64) -> (r: Result<(), RegionInUse>)
        requires
            old(self).wf(),
            virt + size <= u64::MAX,
            req_end(virt as int, size as int) <= u64::MAX,
        ensures
            final(self).pt4 == old(self).pt4,
            ({
                let s = old(self).free_regions@;
                let a = req_start(virt as int);
                let e = req_end(virt as int, size as int);
                let i = first_carve(s, a, e);
                if i < s.len() {
                    &&& r is Ok
                    &&& final(self).free_regions@ == carve_after(s, i, a, e)
                    &&& final(self).mapped_regions@ == map_pages(old(self).mapped_regions@, a, e)
                } else {
                    &&& r == Err::<(), RegionInUse>(RegionInUse { addr: a as u64 })
                    &&& final(self).free_regions@ == s
                    &&& final(self).mapped_regions@ == old(self).mapped_regions@
                }
            }),
            r is Ok && user_free_disjoint(old(self).free_regions@) ==> ({
                let s = old(self).free_regions@;
                let t = final(self).free_regions@;
                let a = req_start(virt as int);
                let e = req_end(virt as int, size as int);
                &&& forall|x: int| a <= x < e ==> covers(s, x)
                &&& forall|k: int| 0 <= k < t.len() ==> (#[trigger] t[k]).end <= a || e <= t[k].start
                &&& forall|x: int| covers(t, x) <==> (covers(s, x) && !(a <= x < e))
                &&& user_free_disjoint(t)
            }),
    {
        let addr = virt - (virt % 4096);
        let mut end_addr = virt + size;
        if (virt + size) % 4096 != 0 {
            end_addr = end_addr + (4096 - ((virt + size) % 4096));
        }
        let total_size = end_addr - addr;
        let size_in_pages = total_size / 4096;
        let ghost s = self.free_regions@;
        let ghost a = addr as int;
        let ghost e = end_addr as int;
        proof {
            assert(total_size % 4096 == 0);
            assert(size_in_pages * 4096 == total_size);
            lemma_first_carve(s, a, e);
            if user_free_disjoint(s) && first_carve(s, a, e) < s.len() {
                lemma_carve_takes_exactly(s, a, e);
            }
        }
        let span = size_in_pages * 4096;
        let alloc_end = addr + span;
        let mut idx: usize = 0;
        while idx < self.free_regions.len()
            invariant
                0 <= idx <= self.free_regions.len(),
                self.free_regions@ == s,
                s == old(self).free_regions@,
                a == req_start(virt as int),
                e == req_end(virt as int, size as int),
                self.mapped_regions@ == old(self).mapped_regions@,
                self.pt4 == old(self).pt4,
                alloc_end == e,
                addr == a,
                span == e - a,
                a <= e,
                (e - a) % 4096 == 0,
                forall|k: int| 0 <= k < idx ==> carve_case(#[trigger] s[k], a, e) == 0,
                user_free_wf(s),
            decreases self.free_regions.len() - idx,
        {
            let reg = self.free_regions[idx];
            assert(user_region_ok(s[idx as int]));
            if reg.start == addr && reg.end - reg.start == span {
                proof {
                    lemma_first_carve_at(s, a, e, idx as int);
                    if user_free_disjoint(s) {
                        lemma_carve_takes_exactly(s, a, e);
                    }
                }
                let region = self.free_regions.remove(idx);
                self.map_a_region(region);
                return Ok(());
            } else if reg.start < addr && reg.start < alloc_end && reg.end == alloc_end {
                proof {
                    lemma_first_carve_at(s, a, e, idx as int);
                    if user_free_disjoint(s) {
                        lemma_carve_takes_exactly(s, a, e);
                    }
                }
                self.free_regions.set(idx, MemoryRegion { start: reg.start, end: addr });
                self.map_a_region(MemoryRegion { start: addr, end: alloc_end });
                return Ok(());
            } else if reg.start < addr && reg.start < alloc_end && reg.end > alloc_end {
                proof {
                    lemma_first_carve_at(s, a, e, idx as int);
                    if user_free_disjoint(s) {
                        lemma_carve_takes_exactly(s, a, e);
                    }
                }
                let old_end = reg.end;
                self.free_regions.set(idx, MemoryRegion { start: reg.start, end: addr });
                self.free_regions.push(MemoryRegion { start: alloc_end, end: old_end });
                self.map_a_region(MemoryRegion { start: addr, end: alloc_end });
                return Ok(());
            } else if reg.start == addr && reg.end > alloc_end {
                proof {
                    lemma_first_carve_at(s, a, e, idx as int);
                    if user_free_disjoint(s) {
                        lemma_carve_takes_exactly(s, a, e);
                    }
                }
                self.free_regions.set(idx, MemoryRegion { start: alloc_end, end: reg.end });
                self.map_a_region(MemoryRegion { start: addr, end: alloc_end });
                return Ok(());
            }
            idx = idx + 1;
        }
        proof {
            lemma_first_carve_at(s, a, e, s.len() as int);
        }
        Err(RegionInUse { addr })
    }

    /// Forget all of user space: everything is free again and nothing is
    /// mapped. Unmapping the pages themselves is the caller's part.
    pub fn clear_user_space(&mut self)
        ensures
            final(self).wf(),
            final(self).pt4 == old(self).pt4,
            final(self).free_regions@ == seq![MemoryRegion { start: USER_SPACE_START, end: USER_SPACE_END }],
            final(self).mapped_regions@ == Map::<u64, u64>::empty(),
            user_free_disjoint(final(self).free_regions@),
    {
        let mut free_regions = Vec::new();
        free_regions.push(MemoryRegion { start: USER_SPACE_START, end: P4_SIZE * 255 });
        self.free_regions = free_regions;
        self.mapped_regions = BTreeMap::new();
    }
}

proof fn lemma_first_carve_at(s: Seq<MemoryRegion>, a: int, e: int, i: int)
    requires
        0 <= i <= s.len(),
        forall|k: int| 0 <= k < i ==> carve_case(#[trigger] s[k], a, e) == 0,
        i < s.len() ==> carve_case(s[i], a, e) != 0,
    ensures
        first_carve(s, a, e) == i,
{
    lemma_first_carve(s, a, e);
    let f = first_carve(s, a, e);
    if f < i {
        assert(carve_case(s[f], a, e) == 0);
    } else if f > i {
        assert(carve_case(s[i], a, e) == 0);
    }
}

} // verus!
