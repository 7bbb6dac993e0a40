//! Physical frame allocator.
//!
//! The allocator starts in "runt mode", where it hands out the usable frames of
//! the boot memory map one after another and cannot free anything. Once the
//! kernel heap is up it moves to "full mode": a list of free regions, sorted by
//! start address, from which frames are taken at the top of the highest region
//! and into which freed frames are merged back.
use vstd::prelude::*;
use crate::memory::{MemoryRegion, PAGE_SIZE, phys_limit};

verus! {

/// Kind of a memory-map entry, as the bootloader reports it.
#[derive(Clone, Copy, Debug, PartialEq, Eq, Structural)]
pub enum MemoryEntryType {
    Usable,
    Reserved,
    AcpiReclaimable,
    AcpiNvs,
    BadMemory,
    BootloaderReclaimable,
    KernelAndModules,
    Framebuffer,
    Unknown,
}

/// One entry of the boot memory map.
#[derive(Clone, Copy, Debug, PartialEq, Eq, Structural)]
pub struct MemoryMapEntry {
    pub base: u64,
    pub length: u64,
    pub entry_type: MemoryEntryType,
}

pub open spec fn entry_usable(e: MemoryMapEntry) -> bool {
    e.entry_type == MemoryEntryType::Usable
}

/// What the bootloader guarantees of a usable entry: page aligned, non-empty,
/// inside the physical address range.
pub open spec fn usable_entry_ok(e: MemoryMapEntry) -> bool {
    &&& e.base % 4096 == 0
    &&& e.length % 4096 == 0
    &&& e.length > 0
    &&& e.base + e.length <= phys_limit()
}

/// The boot memory map: sorted by base, entries do not overlap, every end fits
/// in 64 bits, and usable entries are well formed.
pub open spec fn memory_map_wf(m: Seq<MemoryMapEntry>) -> bool {
    &&& forall|i: int, j: int| 0 <= i < j < m.len() ==> m[i].base + m[i].length <= m[j].base
    &&& forall|i: int| 0 <= i < m.len() ==> m[i].base + m[i].length <= u64::MAX
    &&& forall|i: int| 0 <= i < m.len() && entry_usable(#[trigger] m[i]) ==> usable_entry_ok(m[i])
}

/// The frames of one entry, lowest first.
pub open spec fn entry_frames(e: MemoryMapEntry) -> Seq<u64> {
    Seq::new((e.length / 4096) as nat, |i: int| (e.base + i * 4096) as u64)
}

/// The order in which runt mode hands out frames: the entries from the last to
/// the first, and inside an entry from its lowest frame to its highest.
pub open spec fn usable_frames(m: Seq<MemoryMapEntry>) -> Seq<u64>
    decreases m.len(),
{
    if m.len() == 0 {
        Seq::empty()
    } else {
        let rest = usable_frames(m.drop_last());
        if entry_usable(m.last()) {
            entry_frames(m.last()) + rest
        } else {
            rest
        }
    }
}

/// Total length of the usable entries.
pub open spec fn usable_length(m: Seq<MemoryMapEntry>) -> int
    decreases m.len(),
{
    if m.len() == 0 {
        0
    } else {
        usable_length(m.drop_last()) + if entry_usable(m.last()) { m.last().length as int } else { 0 }
    }
}

// ---------------------------------------------------------------------------
// Free-region lists.

/// Regions sorted strictly by start address.
pub open spec fn sorted_regions(s: Seq<MemoryRegion>) -> bool {
    forall|i: int, j: int| 0 <= i < j < s.len() ==> s[i].start < s[j].start
}

/// A free region: page aligned, non-empty, inside the physical range.
pub open spec fn region_ok(r: MemoryRegion) -> bool {
    &&& r.start % 4096 == 0
    &&& r.end % 4096 == 0
    &&& r.start < r.end
    &&& r.end <= phys_limit()
}

/// The shape every free list keeps.
pub open spec fn free_list_wf(s: Seq<MemoryRegion>) -> bool {
    &&& sorted_regions(s)
    &&& forall|i: int| 0 <= i < s.len() ==> region_ok(#[trigger] s[i])
}

/// Regions that do not overlap.
pub open spec fn disjoint_regions(s: Seq<MemoryRegion>) -> bool {
    forall|i: int, j: int| 0 <= i < j < s.len() ==> s[i].end <= s[j].start
}

/// Whether an address lies in one of the regions.
pub open spec fn covers(s: Seq<MemoryRegion>, a: int) -> bool {
    exists|i: int| 0 <= i < s.len() && (#[trigger] s[i]).start <= a < s[i].end
}

/// Number of regions whose start is below `x` (for a sorted list, the index of
/// the first region starting at or after `x`).
pub open spec fn lower_bound(s: Seq<MemoryRegion>, x: int) -> int
    decreases s.len(),
{
    if s.len() == 0 {
        0
    } else if s.last().start < x {
        s.len() as int
    } else {
        lower_bound(s.drop_last(), x)
    }
}

/// Insert a region keyed by its start: a region with the same start is replaced.
pub open spec fn insert_key(s: Seq<MemoryRegion>, r: MemoryRegion) -> Seq<MemoryRegion> {
    let i = lower_bound(s, r.start as int);
    if i < s.len() && s[i].start == r.start {
        s.update(i, r)
    } else {
        s.insert(i, r)
    }
}

/// The list after taking one frame from the top of the highest region.
pub open spec fn take_top_frame(s: Seq<MemoryRegion>) -> Seq<MemoryRegion> {
    if s.len() == 0 {
        s
    } else if s.last().end - s.last().start == 4096 {
        s.drop_last()
    } else {
        s.update(s.len() - 1, MemoryRegion { start: s.last().start, end: (s.last().end - 4096) as u64 })
    }
}

/// The frame that `take_top_frame` takes.
pub open spec fn top_frame(s: Seq<MemoryRegion>) -> u64 {
    if s.last().end - s.last().start == 4096 {
        s.last().start
    } else {
        (s.last().end - 4096) as u64
    }
}

/// `take_top_frame` applied `n` times.
pub open spec fn take_top_frames(s: Seq<MemoryRegion>, n: nat) -> Seq<MemoryRegion>
    decreases n,
{
    if n == 0 {
        s
    } else {
        take_top_frame(take_top_frames(s, (n - 1) as nat))
    }
}

/// The usable entries of the memory map as regions, in map order.
pub open spec fn usable_regions(m: Seq<MemoryMapEntry>) -> Seq<MemoryRegion>
    decreases m.len(),
{
    if m.len() == 0 {
        Seq::empty()
    } else {
        let rest = usable_regions(m.drop_last());
        if entry_usable(m.last()) {
            rest.push(MemoryRegion { start: m.last().base, end: (m.last().base + m.last().length) as u64 })
        } else {
            rest
        }
    }
}

/// The free list after a frame starting at `f` is given back: merged with the
/// region that ends at `f`, then with the region that starts where the frame
/// ends, or inserted on its own when neither touches it.
pub open spec fn merge_frame(s: Seq<MemoryRegion>, f: u64) -> Seq<MemoryRegion> {
    let fe = (f + 4096) as u64;
    let p = lower_bound(s, f as int) - 1;
    let back = p >= 0 && s[p].end == f;
    let s1 = if back { s.update(p, MemoryRegion { start: s[p].start, end: fe }) } else { s };
    let j = lower_bound(s1, fe as int);
    let fwd = j < s1.len() && s1[j].start == fe;
    let s2 = if fwd { insert_key(s1.remove(j), MemoryRegion { start: f, end: s1[j].end }) } else { s1 };
    if !back && !fwd {
        insert_key(s2, MemoryRegion { start: f, end: fe })
    } else {
        s2
    }
}

/// Index of the region at which the search for `size` bytes of DMA memory
/// stops: the first one that lies at or beyond the 4 GiB line once `size` is
/// added, or that is large enough; the list length when there is none.
pub open spec fn dma_stop(s: Seq<MemoryRegion>, size: int) -> int
    decreases s.len(),
{
    if s.len() == 0 {
        0
    } else {
        let d = dma_stop(s.drop_last(), size);
        if d < s.len() - 1 {
            d
        } else if s.last().start + size >= 0x1_0000_0000 || s.last().end - s.last().start >= size {
            s.len() - 1
        } else {
            s.len() as int
        }
    }
}

/// The outcome of a DMA request: the start handed out and the new free list.
pub open spec fn dma_result(s: Seq<MemoryRegion>, size: int) -> (Option<u64>, Seq<MemoryRegion>) {
    let i = dma_stop(s, size);
    if i >= s.len() || s[i].start + size >= 0x1_0000_0000 {
        (None, s)
    } else {
        let r = s[i];
        let rest = s.remove(i);
        if r.end - r.start > size {
            (Some(r.start), insert_key(rest, MemoryRegion { start: (r.start + size) as u64, end: r.end }))
        } else {
            (Some(r.start), rest)
        }
    }
}

/// Whether a frame overlaps an entry of the map that is not usable RAM.
pub open spec fn frame_in_unusable(m: Seq<MemoryMapEntry>, f: int) -> bool {
    exists|i: int|
        0 <= i < m.len() && !entry_usable(#[trigger] m[i]) && !(f < m[i].base || f + 4096 > m[i].base
            + m[i].length)
}

// ---------------------------------------------------------------------------
// Lemmas on sorted region lists.

proof fn lemma_lower_bound(s: Seq<MemoryRegion>, x: int)
    requires
        sorted_regions(s),
    ensures
        0 <= lower_bound(s, x) <= s.len(),
        forall|k: int| 0 <= k < lower_bound(s, x) ==> s[k].start < x,
        forall|k: int| lower_bound(s, x) <= k < s.len() ==> s[k].start >= x,
    decreases s.len(),
{
    if s.len() > 0 {
        if s.last().start >= x {
            lemma_lower_bound(s.drop_last(), x);
            let lb = lower_bound(s, x);
            assert forall|k: int| 0 <= k < lb implies s[k].start < x by {
                assert(s.drop_last()[k] == s[k]);
            }
            assert forall|k: int| lb <= k < s.len() implies s[k].start >= x by {
                if k < s.len() - 1 {
                    assert(s.drop_last()[k] == s[k]);
                }
            }
        } else {
            assert forall|k: int| 0 <= k < s.len() implies s[k].start < x by {
                if k < s.len() - 1 {
                    assert(s[k].start < s[s.len() - 1].start);
                }
            }
        }
    }
}

proof fn lemma_lower_bound_unique(s: Seq<MemoryRegion>, x: int, i: int)
    requires
        sorted_regions(s),
        0 <= i <= s.len(),
        forall|k: int| 0 <= k < i ==> s[k].start < x,
        forall|k: int| i <= k < s.len() ==> s[k].start >= x,
    ensures
        lower_bound(s, x) == i,
{
    lemma_lower_bound(s, x);
    let lb = lower_bound(s, x);
    if lb < i {
        assert(s[lb].start >= x);
    } else if lb > i {
        assert(s[i].start >= x);
    }
}

proof fn lemma_insert_key_wf(s: Seq<MemoryRegion>, r: MemoryRegion)
    requires
        free_list_wf(s),
        region_ok(r),
    ensures
        free_list_wf(insert_key(s, r)),
{
    lemma_lower_bound(s, r.start as int);
    let t = insert_key(s, r);
    assert forall|i: int, j: int| 0 <= i < j < t.len() implies t[i].start < t[j].start by {
    }
}

/// Runt mode: `usable_frames` of a prefix peels off its last entry.
proof fn lemma_usable_frames_step(m: Seq<MemoryMapEntry>, i: int)
    requires
        0 < i <= m.len(),
    ensures
        usable_frames(m.subrange(0, i)) == (if entry_usable(m[i - 1]) {
            entry_frames(m[i - 1]) + usable_frames(m.subrange(0, i - 1))
        } else {
            usable_frames(m.subrange(0, i - 1))
        }),
        usable_regions(m.subrange(0, i)) == (if entry_usable(m[i - 1]) {
            usable_regions(m.subrange(0, i - 1)).push(
                MemoryRegion { start: m[i - 1].base, end: (m[i - 1].base + m[i - 1].length) as u64 },
            )
        } else {
            usable_regions(m.subrange(0, i - 1))
        }),
        usable_length(m.subrange(0, i)) == usable_length(m.subrange(0, i - 1)) + if entry_usable(
            m[i - 1],
        ) {
            m[i - 1].length as int
        } else {
            0
        },
{
    assert(m.subrange(0, i).drop_last() =~= m.subrange(0, i - 1));
}

proof fn lemma_usable_regions_shape(m: Seq<MemoryMapEntry>, i: int)
    requires
        memory_map_wf(m),
        0 <= i <= m.len(),
    ensures
        free_list_wf(usable_regions(m.subrange(0, i))),
        forall|k: int|
            0 <= k < usable_regions(m.subrange(0, i)).len() ==> (#[trigger] usable_regions(
                m.subrange(0, i),
            )[k]).end <= (if i == 0 {
                0
            } else {
                m[i - 1].base + m[i - 1].length
            }),
        disjoint_regions(usable_regions(m.subrange(0, i))),
    decreases i,
{
    if i > 0 {
        lemma_usable_frames_step(m, i);
        lemma_usable_regions_shape(m, i - 1);
        let prev = usable_regions(m.subrange(0, i - 1));
        if i >= 2 {
            assert(m[i - 2].base + m[i - 2].length <= m[i - 1].base);
        }
        if entry_usable(m[i - 1]) {
            assert(usable_entry_ok(m[i - 1]));
        }
        assert forall|k: int| 0 <= k < prev.len() implies prev[k].end <= m[i - 1].base by {
            if i >= 2 {
                assert(m[i - 2].base + m[i - 2].length <= m[i - 1].base);
            }
        }
    }
}

// ---------------------------------------------------------------------------
// Executable helpers on sorted region lists.

fn find_lower_bound(v: &Vec<MemoryRegion>, x: u64) -> (i: usize)
    requires
        sorted_regions(v@),
    ensures
        i == lower_bound(v@, x as int),
{
    let mut i: usize = 0;
    while i < v.len() && v[i].start < x
        invariant
            0 <= i <= v.len(),
            sorted_regions(v@),
            forall|k: int| 0 <= k < i ==> v@[k].start < x,
        decreases v.len() - i,
    {
        i = i + 1;
    }
    proof {
        assert forall|k: int| i <= k < v@.len() implies v@[k].start >= x by {
            if k > i {
                assert(v@[i as int].start < v@[k].start);
            }
        }
        lemma_lower_bound_unique(v@, x as int, i as int);
    }
    i
}

fn insert_region(v: &mut Vec<MemoryRegion>, r: MemoryRegion)
    requires
        sorted_regions(old(v)@),
    ensures
        final(v)@ == insert_key(old(v)@, r),
{
    let i = find_lower_bound(v, r.start);
    proof {
        lemma_lower_bound(v@, r.start as int);
    }
    if i < v.len() && v[i].start == r.start {
        v.set(i, r);
    } else {
        v.insert(i, r);
    }
}

/// The `n`th frame that runt mode hands out, if there is one.
fn nth_usable_frame(map: &Vec<MemoryMapEntry>, n: usize) -> (r: Option<u64>)
    requires
        memory_map_wf(map@),
    ensures
        r == (if n < usable_frames(map@).len() {
            Some(usable_frames(map@)[n as int])
        } else {
            None::<u64>
        }),
{
    let mut remaining: u64 = n as u64;
    let mut i = map.len();
    let ghost mut skipped: Seq<u64> = Seq::empty();
    assert(map@.subrange(0, map@.len() as int) =~= map@);
    while i > 0
        invariant
            0 <= i <= map.len(),
            memory_map_wf(map@),
            usable_frames(map@) == skipped + usable_frames(map@.subrange(0, i as int)),
            remaining + skipped.len() == n,
        decreases i,
    {
        let e = map[i - 1];
        proof {
            lemma_usable_frames_step(map@, i as int);
        }
        if e.entry_type == MemoryEntryType::Usable {
            let count = e.length / 4096;
            proof {
                assert(usable_entry_ok(map@[i - 1]));
            }
            if remaining < count {
                proof {
                    assert(remaining * 4096 < e.length) by (nonlinear_arith)
                        requires
                            remaining < e.length / 4096,
                    ;
                    assert(usable_frames(map@)[n as int] == entry_frames(e)[remaining as int]);
                }
                return Some(e.base + remaining * 4096);
            }
            proof {
                skipped = skipped + entry_frames(e);
            }
            remaining = remaining - count;
        }
        i = i - 1;
    }
    assert(map@.subrange(0, 0) =~= Seq::<MemoryMapEntry>::empty());
    None
}

/// One allocation on the allocator state `(next, free)` over the map `m`:
/// the frame handed out, and the state after.
pub open spec fn frame_step(m: Seq<MemoryMapEntry>, next: int, free: Option<Seq<MemoryRegion>>)
    -> (Option<u64>, int, Option<Seq<MemoryRegion>>) {
    match free {
        None => (
            if 0 <= next < usable_frames(m).len() { Some(usable_frames(m)[next]) } else { None },
            next + 1,
            None,
        ),
        Some(s) => (
            if s.len() == 0 { None } else { Some(top_frame(s)) },
            next,
            Some(take_top_frame(s)),
        ),
    }
}

/// Up to `n` allocations one after the other: the frames handed out, or
/// `None` when one of them found no frame (the allocations stop there), and
/// the state after.
pub open spec fn frames_run(m: Seq<MemoryMapEntry>, next: int, free: Option<Seq<MemoryRegion>>, n: nat)
    -> (Option<Seq<u64>>, int, Option<Seq<MemoryRegion>>)
    decreases n,
{
    if n == 0 {
        (Some(Seq::empty()), next, free)
    } else {
        let prev = frames_run(m, next, free, (n - 1) as nat);
        match prev.0 {
            None => prev,
            Some(fs) => {
                let step = frame_step(m, prev.1, prev.2);
                match step.0 {
                    None => (None, step.1, step.2),
                    Some(f) => (Some(fs.push(f)), step.1, step.2),
                }
            },
        }
    }
}

proof fn lemma_frames_run_stops(m: Seq<MemoryMapEntry>, next: int, free: Option<Seq<MemoryRegion>>, k: nat, n: nat)
    requires
        k <= n,
        frames_run(m, next, free, k).0 is None,
    ensures
        frames_run(m, next, free, n) == frames_run(m, next, free, k),
    decreases n - k,
{
    if k < n {
        lemma_frames_run_stops(m, next, free, k, (n - 1) as nat);
    }
}

/// A run that found all its frames found exactly as many as were asked for.
pub proof fn lemma_frames_run_len(m: Seq<MemoryMapEntry>, next: int, free: Option<Seq<MemoryRegion>>, n: nat)
    ensures
        frames_run(m, next, free, n).0 matches Some(fs) ==> fs.len() == n,
    decreases n,
{
    if n > 0 {
        lemma_frames_run_len(m, next, free, (n - 1) as nat);
    }
}

/// The frame allocator.
pub struct VenixFrameAllocator {
    pub memory_map: Vec<MemoryMapEntry>,
    /// Runt mode: how many frames have been handed out.
    pub next: usize,
    /// Full mode: the free regions, sorted by start.
    pub free_regions: Option<Vec<MemoryRegion>>,
}

impl VenixFrameAllocator {
    /// The allocator's shape: a well-formed memory map and, in full mode, a
    /// well-formed free list.
    pub open spec fn wf(&self) -> bool {
        &&& memory_map_wf(self.memory_map@)
        &&& match self.free_regions {
            Some(v) => free_list_wf(v@),
            None => true,
        }
    }

    /// The free list, `None` in runt mode.
    pub open spec fn free_opt(&self) -> Option<Seq<MemoryRegion>> {
        match self.free_regions {
            Some(v) => Some(v@),
            None => None,
        }
    }

    /// The free list, empty in runt mode.
    pub open spec fn free_view(&self) -> Seq<MemoryRegion> {
        match self.free_regions {
            Some(v) => v@,
            None => Seq::empty(),
        }
    }

    /// A new allocator in runt mode over the given memory map.
    pub fn new(memory_map: Vec<MemoryMapEntry>) -> (r: Self)
        ensures
            r.memory_map@ == memory_map@,
            r.next == 0,
            r.free_regions is None,
    {
        VenixFrameAllocator { memory_map, next: 0, free_regions: None }
    }

    /// How much RAM the map reports as usable, in bytes.
    pub fn get_usable_memory(&self) -> (r: u64)
        requires
            usable_length(self.memory_map@) <= u64::MAX,
        ensures
            r == usable_length(self.memory_map@),
    {
        let mut total: u64 = 0;
        let mut i: usize = 0;
        while i < self.memory_map.len()
            invariant
                0 <= i <= self.memory_map.len(),
                usable_length(self.memory_map@) <= u64::MAX,
                total == usable_length(self.memory_map@.subrange(0, i as int)),
            decreases self.memory_map.len() - i,
        {
            proof {
                lemma_usable_frames_step(self.memory_map@, i + 1);
                lemma_usable_length_mono(self.memory_map@, i + 1);
            }
            if self.memory_map[i].entry_type == MemoryEntryType::Usable {
                total = total + self.memory_map[i].length;
            }
            i = i + 1;
        }
        assert(self.memory_map@.subrange(0, self.memory_map@.len() as int) =~= self.memory_map@);
        total
    }

    /// Leave runt mode: the free list becomes the usable entries, less the
    /// frames runt mode already handed out, each taken from the top of the
    /// highest region.
    pub fn move_to_full_mode(&mut self)
        requires
            old(self).wf(),
        ensures
            final(self).wf(),
            final(self).memory_map@ == old(self).memory_map@,
            final(self).next == old(self).next,
            final(self).free_regions is Some,
            final(self).free_view() == take_top_frames(
                usable_regions(old(self).memory_map@),
                old(self).next as nat,
            ),
            disjoint_regions(final(self).free_view()),
    {
        let mut free_regions: Vec<MemoryRegion> = Vec::new();
        let mut i: usize = 0;
        proof {
            assert(self.memory_map@.subrange(0, 0) =~= Seq::<MemoryMapEntry>::empty());
        }
        while i < self.memory_map.len()
            invariant
                0 <= i <= self.memory_map.len(),
                memory_map_wf(self.memory_map@),
                free_regions@ == usable_regions(self.memory_map@.subrange(0, i as int)),
            decreases self.memory_map.len() - i,
        {
            proof {
                lemma_usable_frames_step(self.memory_map@, i + 1);
            }
            let e = self.memory_map[i];
            if e.entry_type == MemoryEntryType::Usable {
                free_regions.push(MemoryRegion { start: e.base, end: e.base + e.length });
            }
            i = i + 1;
        }
        proof {
            assert(self.memory_map@.subrange(0, self.memory_map@.len() as int) =~= self.memory_map@);
            lemma_usable_regions_shape(self.memory_map@, self.memory_map@.len() as int);
        }
        let mut k: usize = 0;
        while k < self.next
            invariant
                0 <= k <= self.next,
                free_list_wf(free_regions@),
                disjoint_regions(free_regions@),
                free_regions@ == take_top_frames(usable_regions(self.memory_map@), k as nat),
            decreases self.next - k,
        {
            proof {
                lemma_take_top_frame_wf(free_regions@);
                if free_regions@.len() > 0 {
                    lemma_take_top_frame_covers(free_regions@);
                }
            }
            if free_regions.len() > 0 {
                take_top(&mut free_regions);
            }
            k = k + 1;
        }
        self.free_regions = Some(free_regions);
    }

    /// Put a freed frame back into the free list, merging it with its
    /// neighbours.
    fn try_merge_regions(free_regions: &mut Vec<MemoryRegion>, f: u64)
        requires
            free_list_wf(old(free_regions)@),
            f % 4096 == 0,
            f + 4096 <= phys_limit(),
        ensures
            final(free_regions)@ == merge_frame(old(free_regions)@, f),
            free_list_wf(final(free_regions)@),
    {
        let ghost s = free_regions@;
        let fe = f + 4096;
        let mut merged = false;
        let i = find_lower_bound(free_regions, f);
        proof {
            lemma_lower_bound(s, f as int);
        }
        if i > 0 {
            let prev = free_regions[i - 1];
            if prev.end == f {
                merged = true;
                free_regions.set(i - 1, MemoryRegion { start: prev.start, end: fe });
            }
        }
        let ghost s1 = free_regions@;
        proof {
            assert(free_list_wf(s1));
        }
        let j = find_lower_bound(free_regions, fe);
        proof {
            lemma_lower_bound(s1, fe as int);
        }
        let mut fwd = false;
        if j < free_regions.len() {
            let next = free_regions[j];
            if next.start == fe {
                merged = true;
                fwd = true;
                free_regions.remove(j);
                proof {
                    assert(free_list_wf(free_regions@));
                    assert(region_ok(MemoryRegion { start: f, end: next.end }));
                    lemma_insert_key_wf(free_regions@, MemoryRegion { start: f, end: next.end });
                }
                insert_region(free_regions, MemoryRegion { start: f, end: next.end });
            }
        }
        if !merged {
            proof {
                lemma_insert_key_wf(free_regions@, MemoryRegion { start: f, end: fe });
            }
            insert_region(free_regions, MemoryRegion { start: f, end: fe });
        }
    }

    /// Take `size` bytes of physically contiguous memory below 4 GiB, for DMA.
    /// The first region (lowest address first) that would end at or past
    /// 4 GiB stops the search with no result; the first one large enough is
    /// used from its start. Runt mode has no DMA memory.
    pub fn allocate_dma_frames(&mut self, size: u64) -> (r: Option<u64>)
        requires
            old(self).wf(),
            size % 4096 == 0,
            old(self).free_view().len() > 0 ==> old(self).free_view()[0].start + size <= u64::MAX,
        ensures
            final(self).wf(),
            final(self).memory_map@ == old(self).memory_map@,
            final(self).next == old(self).next,
            final(self).free_regions is Some <==> old(self).free_regions is Some,
            old(self).free_regions is None ==> r is None,
            old(self).free_regions is Some ==> (r, final(self).free_view()) == dma_result(
                old(self).free_view(),
                size as int,
            ),
            old(self).free_regions is Some && disjoint_regions(old(self).free_view()) ==> match r {
                Some(p) => {
                    &&& p + size < 0x1_0000_0000
                    &&& forall|a: int| p <= a < p + size ==> covers(old(self).free_view(), a)
                    &&& forall|a: int| covers(final(self).free_view(), a)
                        <==> (covers(old(self).free_view(), a) && !(p <= a < p + size))
                    &&& forall|k: int| 0 <= k < old(self).free_view().len() && (#[trigger] old(self).free_view()[k]).start < p
                        ==> old(self).free_view()[k].end - old(self).free_view()[k].start < size
                },
                None => final(self).free_view() == old(self).free_view(),
            },
    {
        proof {
            if old(self).free_regions is Some && disjoint_regions(old(self).free_view()) {
                lemma_dma_result_covers(old(self).free_view(), size as int);
            }
        }
        match self.free_regions.take() {
            None => None,
            Some(mut free_regions) => {
                let r = Self::dma_take(&mut free_regions, size);
                self.free_regions = Some(free_regions);
                r
            },
        }
    }

    fn dma_take(free_regions: &mut Vec<MemoryRegion>, size: u64) -> (r: Option<u64>)
        requires
            free_list_wf(old(free_regions)@),
            size % 4096 == 0,
            old(free_regions)@.len() > 0 ==> old(free_regions)@[0].start + size <= u64::MAX,
        ensures
            free_list_wf(final(free_regions)@),
            (r, final(free_regions)@) == dma_result(old(free_regions)@, size as int),
    {
        let ghost s = free_regions@;
        let mut i: usize = 0;
        let mut found = false;
        while i < free_regions.len() && !found
            invariant
                0 <= i <= free_regions.len(),
                free_regions@ == s,
                free_list_wf(s),
                s.len() > 0 ==> s[0].start + size <= u64::MAX,
                forall|k: int|
                    0 <= k < i ==> #[trigger] s[k].start + size < 0x1_0000_0000 && s[k].end
                        - s[k].start < size,
                found ==> i < s.len() && (s[i as int].end - s[i as int].start >= size),
                found ==> s[i as int].start + size < 0x1_0000_0000,
            decreases free_regions.len() - i + (if found { 0int } else { 1int }),
        {
            if i > 0 {
                assert(s[0].start < s[i as int].start);
            }
            let reg = free_regions[i];
            if reg.start + size >= 0x1_0000_0000 {
                proof {
                    lemma_dma_stop(s, size as int, i as int);
                }
                return None;
            }
            if reg.end - reg.start >= size {
                found = true;
            } else {
                i = i + 1;
            }
        }
        proof {
            lemma_dma_stop(s, size as int, i as int);
        }
        if !found {
            return None;
        }
        assert(region_ok(s[i as int]));
        let reg = free_regions.remove(i);
        if reg.end - reg.start > size {
            proof {
                assert(region_ok(MemoryRegion { start: (reg.start + size) as u64, end: reg.end }));
                lemma_insert_key_wf(free_regions@, MemoryRegion { start: (reg.start + size) as u64, end: reg.end });
            }
            insert_region(free_regions, MemoryRegion { start: reg.start + size, end: reg.end });
        }
        Some(reg.start)
    }

    /// Hand out one frame. Runt mode: the next usable frame of the map, in
    /// `usable_frames` order. Full mode: the top frame of the highest free
    /// region; `None` when the free list is empty.
    pub fn allocate_frame(&mut self) -> (r: Option<u64>)
        requires
            old(self).wf(),
            old(self).free_regions is None ==> old(self).next < usize::MAX,
        ensures
            final(self).wf(),
            final(self).memory_map@ == old(self).memory_map@,
            final(self).free_regions is Some <==> old(self).free_regions is Some,
            old(self).free_regions is None ==> {
                &&& final(self).next == old(self).next + 1
                &&& r == (if old(self).next < usable_frames(old(self).memory_map@).len() {
                    Some(usable_frames(old(self).memory_map@)[old(self).next as int])
                } else {
                    None::<u64>
                })
            },
            old(self).free_regions is Some ==> {
                &&& final(self).next == old(self).next
                &&& final(self).free_view() == take_top_frame(old(self).free_view())
                &&& r == (if old(self).free_view().len() == 0 {
                    None::<u64>
                } else {
                    Some(top_frame(old(self).free_view()))
                })
            },
    {
        match self.free_regions.take() {
            Some(mut free_regions) => {
                if free_regions.len() == 0 {
                    self.free_regions = Some(free_regions);
                    return None;
                }
                proof {
                    lemma_take_top_frame_wf(free_regions@);
                }
                let f = take_top(&mut free_regions);
                self.free_regions = Some(free_regions);
                Some(f)
            },
            None => {
                let frame = nth_usable_frame(&self.memory_map, self.next);
                self.next = self.next + 1;
                frame
            },
        }
    }

    /// The frames `allocations` successive allocations hand out; `None` when
    /// the allocator runs out first (the frames taken until then stay taken).
    pub fn allocate_frames(&mut self, allocations: usize) -> (r: Option<Vec<u64>>)
        requires
            old(self).wf(),
            old(self).free_regions is None ==> old(self).next + allocations < usize::MAX,
        ensures
            final(self).wf(),
            final(self).memory_map@ == old(self).memory_map@,
            ({
                let run = frames_run(old(self).memory_map@, old(self).next as int, old(self).free_opt(), allocations as nat);
                &&& match (r, run.0) {
                    (Some(v), Some(fs)) => v@ == fs,
                    (None, None) => true,
                    _ => false,
                }
                &&& final(self).next == run.1
                &&& final(self).free_opt() == run.2
            }),
    {
        let ghost m = self.memory_map@;
        let ghost next0 = self.next as int;
        let ghost free0 = self.free_opt();
        let mut frames: Vec<u64> = Vec::new();
        let mut k: usize = 0;
        while k < allocations
            invariant
                self.wf(),
                self.memory_map@ == m,
                m == old(self).memory_map@,
                next0 == old(self).next,
                free0 == old(self).free_opt(),
                k <= allocations,
                free0 is None <==> self.free_regions is None,
                free0 is None ==> self.next == next0 + k && next0 + allocations < usize::MAX,
                ({
                    let run = frames_run(m, next0, free0, k as nat);
                    &&& run.0 == Some(frames@)
                    &&& self.next == run.1
                    &&& self.free_opt() == run.2
                }),
            decreases allocations - k,
        {
            match self.allocate_frame() {
                Some(f) => frames.push(f),
                None => {
                    proof {
                        lemma_frames_run_stops(m, next0, free0, (k + 1) as nat, allocations as nat);
                    }
                    return None;
                },
            }
            k = k + 1;
        }
        Some(frames)
    }

    /// Give a frame back. The frame must be page aligned, must not overlap
    /// memory the map reports as something other than RAM, and the allocator
    /// must be in full mode.
    pub fn deallocate_frame(&mut self, frame: u64)
        requires
            old(self).wf(),
            frame % 4096 == 0,
            frame + 4096 <= phys_limit(),
            !frame_in_unusable(old(self).memory_map@, frame as int),
            old(self).free_regions is Some,
        ensures
            final(self).wf(),
            final(self).memory_map@ == old(self).memory_map@,
            final(self).next == old(self).next,
            final(self).free_regions is Some,
            final(self).free_view() == merge_frame(old(self).free_view(), frame),
    {
        let mut i: usize = 0;
        while i < self.memory_map.len()
            invariant
                0 <= i <= self.memory_map.len(),
                memory_map_wf(self.memory_map@),
                !frame_in_unusable(self.memory_map@, frame as int),
                frame + 4096 <= phys_limit(),
            decreases self.memory_map.len() - i,
        {
            let region = self.memory_map[i];
            let frame_end = frame + 4096;
            if frame < region.base || frame_end > region.base + region.length {
                i = i + 1;
                continue;
            }
            assert(entry_usable(self.memory_map@[i as int]));
            i = i + 1;
        }
        match self.free_regions.take() {
            Some(mut free_regions) => {
                Self::try_merge_regions(&mut free_regions, frame);
                self.free_regions = Some(free_regions);
            },
            None => {
                assert(false);
            },
        }
    }
}

/// Take the top frame of the highest region of a non-empty free list.
fn take_top(v: &mut Vec<MemoryRegion>) -> (f: u64)
    requires
        free_list_wf(old(v)@),
        old(v)@.len() > 0,
    ensures
        final(v)@ == take_top_frame(old(v)@),
        f == top_frame(old(v)@),
{
    let last = v.len() - 1;
    let r = v[last];
    assert(region_ok(v@[last as int]));
    if r.end - r.start == 4096 {
        v.pop();
        r.start
    } else {
        let new_end = r.end - 4096;
        v.set(last, MemoryRegion { start: r.start, end: new_end });
        new_end
    }
}

proof fn lemma_take_top_frame_wf(s: Seq<MemoryRegion>)
    requires
        free_list_wf(s),
    ensures
        free_list_wf(take_top_frame(s)),
{
    if s.len() > 0 {
        assert(region_ok(s.last()));
    }
}

proof fn lemma_usable_length_mono(m: Seq<MemoryMapEntry>, i: int)
    requires
        0 <= i <= m.len(),
    ensures
        usable_length(m.subrange(0, i)) <= usable_length(m),
    decreases m.len() - i,
{
    if i < m.len() {
        lemma_usable_length_mono(m, i + 1);
        lemma_usable_frames_step(m, i + 1);
    } else {
        assert(m.subrange(0, i) =~= m);
    }
}

proof fn lemma_dma_stop(s: Seq<MemoryRegion>, size: int, i: int)
    requires
        0 <= i <= s.len(),
        forall|k: int| 0 <= k < i ==> #[trigger] s[k].start + size < 0x1_0000_0000 && s[k].end - s[k].start < size,
        i < s.len() ==> (s[i].start + size >= 0x1_0000_0000 || s[i].end - s[i].start >= size),
    ensures
        dma_stop(s, size) == i,
    decreases s.len(),
{
    if s.len() > 0 {
        if i < s.len() - 1 {
            lemma_dma_stop(s.drop_last(), size, i);
        } else {
            lemma_dma_stop(s.drop_last(), size, s.len() - 1);
        }
    }
}

} // verus!

verus! {

// ---------------------------------------------------------------------------
// Laws of the free list.

pub open spec fn in_frame(f: int, a: int) -> bool {
    f <= a < f + 4096
}

pub(crate) proof fn lemma_covers_remove(s: Seq<MemoryRegion>, i: int, a: int)
    requires
        0 <= i < s.len(),
    ensures
        covers(s, a) <==> (covers(s.remove(i), a) || (s[i].start <= a < s[i].end)),
{
    let t = s.remove(i);
    if covers(s, a) {
        let k = choose|k: int| 0 <= k < s.len() && (#[trigger] s[k]).start <= a < s[k].end;
        if k < i {
            assert(t[k] == s[k]);
        } else if k > i {
            assert(t[k - 1] == s[k]);
        }
    }
    if covers(t, a) {
        let k = choose|k: int| 0 <= k < t.len() && (#[trigger] t[k]).start <= a < t[k].end;
        if k < i {
            assert(t[k] == s[k]);
        } else {
            assert(t[k] == s[k + 1]);
        }
    }
}

pub(crate) proof fn lemma_covers_insert(s: Seq<MemoryRegion>, i: int, r: MemoryRegion, a: int)
    requires
        0 <= i <= s.len(),
    ensures
        covers(s.insert(i, r), a) <==> (covers(s, a) || (r.start <= a < r.end)),
{
    let t = s.insert(i, r);
    assert(t.remove(i) =~= s);
    lemma_covers_remove(t, i, a);
}

pub(crate) proof fn lemma_covers_update(s: Seq<MemoryRegion>, i: int, r: MemoryRegion, a: int)
    requires
        0 <= i < s.len(),
    ensures
        covers(s.update(i, r), a) <==> (covers(s.remove(i), a) || (r.start <= a < r.end)),
{
    let t = s.update(i, r);
    assert(t.remove(i) =~= s.remove(i));
    lemma_covers_remove(t, i, a);
}

proof fn lemma_covers_insert_key(s: Seq<MemoryRegion>, r: MemoryRegion, a: int)
    requires
        sorted_regions(s),
        forall|k: int| 0 <= k < s.len() ==> (#[trigger] s[k]).start != r.start,
    ensures
        covers(insert_key(s, r), a) <==> (covers(s, a) || (r.start <= a < r.end)),
{
    lemma_lower_bound(s, r.start as int);
    let i = lower_bound(s, r.start as int);
    if i < s.len() {
        assert(s[i].start != r.start);
    }
    lemma_covers_insert(s, i, r, a);
}

/// Taking the top frame of a disjoint, well-formed, non-empty free list
/// removes exactly that frame from the addresses it covers, and the list stays
/// disjoint.
pub proof fn lemma_take_top_frame_covers(s: Seq<MemoryRegion>)
    requires
        free_list_wf(s),
        disjoint_regions(s),
        s.len() > 0,
    ensures
        covers(s, top_frame(s) as int),
        disjoint_regions(take_top_frame(s)),
        free_list_wf(take_top_frame(s)),
        forall|a: int|
            covers(s, a) <==> (covers(take_top_frame(s), a) || in_frame(top_frame(s) as int, a)),
        forall|a: int| in_frame(top_frame(s) as int, a) ==> !covers(take_top_frame(s), a),
{
    lemma_take_top_frame_wf(s);
    let n = s.len() - 1;
    let last = s[n];
    assert(region_ok(last));
    let t = take_top_frame(s);
    let f = top_frame(s) as int;
    assert(s[n].start <= f < s[n].end);
    assert forall|a: int|
        covers(s, a) <==> (covers(t, a) || in_frame(f, a)) by {
        lemma_covers_remove(s, n, a);
        if last.end - last.start == 4096 {
            assert(t =~= s.remove(n));
        } else {
            lemma_covers_update(s, n, t[n], a);
        }
    }
    assert forall|a: int| in_frame(f, a) implies !covers(t, a) by {
        if covers(t, a) {
            let k = choose|k: int| 0 <= k < t.len() && (#[trigger] t[k]).start <= a < t[k].end;
            if k < n {
                assert(s[k].end <= s[n].start);
            }
        }
    }
}

/// Giving back a page-aligned frame that a disjoint, well-formed free list
/// does not cover adds exactly that frame to the addresses the list covers.
#[verifier::spinoff_prover]
#[verifier::rlimit(40)]
pub proof fn lemma_merge_frame_covers(s: Seq<MemoryRegion>, f: u64)
    requires
        free_list_wf(s),
        disjoint_regions(s),
        f % 4096 == 0,
        f + 4096 <= phys_limit(),
        !covers(s, f as int),
    ensures
        free_list_wf(merge_frame(s, f)),
        forall|a: int| covers(merge_frame(s, f), a) <==> (covers(s, a) || in_frame(f as int, a)),
{
    let fe = (f + 4096) as u64;
    lemma_lower_bound(s, f as int);
    let p = lower_bound(s, f as int) - 1;
    let back = p >= 0 && s[p].end == f;
    let s1 = if back { s.update(p, MemoryRegion { start: s[p].start, end: fe }) } else { s };
    assert forall|k: int| 0 <= k < s.len() implies (#[trigger] s[k]).start != f by {
        assert(region_ok(s[k]));
    }
    assert(sorted_regions(s1));
    assert forall|k: int| 0 <= k < s1.len() implies region_ok(#[trigger] s1[k]) by {
        if back && k == p {
            assert(region_ok(s[p]));
        }
    }
    lemma_lower_bound(s1, fe as int);
    let j = lower_bound(s1, fe as int);
    let fwd = j < s1.len() && s1[j].start == fe;
    // Coverage of s1.
    assert forall|a: int| covers(s1, a) <==> (covers(s, a) || (back && in_frame(f as int, a))) by {
        if back {
            lemma_covers_update(s, p, s1[p], a);
            lemma_covers_remove(s, p, a);
        }
    }
    assert forall|k: int| 0 <= k < s1.len() implies (#[trigger] s1[k]).start != f by {
        if back && k == p {
        } else {
            assert(s1[k] == s[k]);
        }
    }
    let s2 = if fwd { insert_key(s1.remove(j), MemoryRegion { start: f, end: s1[j].end }) } else { s1 };
    if fwd {
        let t = s1.remove(j);
        let r = MemoryRegion { start: f, end: s1[j].end };
        assert(region_ok(s1[j]));
        assert forall|k: int| 0 <= k < t.len() implies (#[trigger] t[k]).start != r.start by {
            if k < j {
                assert(t[k] == s1[k]);
            } else {
                assert(t[k] == s1[k + 1]);
            }
        }
        assert(free_list_wf(t));
        lemma_insert_key_wf(t, r);
        assert forall|a: int| covers(s2, a) <==> (covers(s1, a) || in_frame(f as int, a)) by {
            lemma_covers_insert_key(t, r, a);
            lemma_covers_remove(s1, j, a);
        }
    }
    if !back && !fwd {
        let r = MemoryRegion { start: f, end: fe };
        lemma_insert_key_wf(s2, r);
        assert forall|a: int| covers(merge_frame(s, f), a) <==> (covers(s2, a) || in_frame(f as int, a)) by {
            lemma_covers_insert_key(s2, r, a);
        }
    }
}

/// Round trip: on a disjoint, well-formed free list, allocating the top frame
/// and then giving it back leaves the covered addresses as they were.
pub proof fn lemma_allocate_then_free(s: Seq<MemoryRegion>)
    requires
        free_list_wf(s),
        disjoint_regions(s),
        s.len() > 0,
    ensures
        forall|a: int| covers(merge_frame(take_top_frame(s), top_frame(s)), a) <==> covers(s, a),
{
    lemma_take_top_frame_covers(s);
    let f = top_frame(s);
    assert(region_ok(s.last()));
    assert(f % 4096 == 0);
    lemma_merge_frame_covers(take_top_frame(s), f);
}


/// Every frame of the usable entries of `m` ends at or below `b` when every
/// entry does.
proof fn lemma_usable_frames_below(m: Seq<MemoryMapEntry>, b: int)
    requires
        memory_map_wf(m),
        forall|i: int| 0 <= i < m.len() ==> #[trigger] m[i].base + m[i].length <= b,
    ensures
        forall|k: int| 0 <= k < usable_frames(m).len() ==> #[trigger] usable_frames(m)[k] + 4096 <= b,
    decreases m.len(),
{
    if m.len() > 0 {
        let rest = m.drop_last();
        assert(memory_map_wf(rest));
        lemma_usable_frames_below(rest, b);
        let e = m.last();
        assert(m[m.len() - 1] == e);
        if entry_usable(e) {
            let ef = entry_frames(e);
            assert(e.base + e.length <= u64::MAX);
            assert(e.base + e.length <= b);
            assert forall|k: int| 0 <= k < ef.len() implies #[trigger] ef[k] + 4096 <= b by {
                assert((e.length / 4096) * 4096 <= e.length);
                assert(k * 4096 + 4096 <= (e.length / 4096) * 4096) by (nonlinear_arith)
                    requires 0 <= k < e.length / 4096;
                assert(ef[k] == e.base + k * 4096);
            }
            let uf = usable_frames(m);
            assert forall|k: int| 0 <= k < uf.len() implies #[trigger] uf[k] + 4096 <= b by {
                if k < ef.len() {
                    assert(uf[k] == ef[k]);
                } else {
                    assert(uf[k] == usable_frames(rest)[k - ef.len()]);
                }
            }
        } else {
            assert(usable_frames(m) == usable_frames(rest));
        }
    }
}

/// The frames of the usable entries of a well-formed memory map are all
/// different.
proof fn lemma_usable_frames_distinct(m: Seq<MemoryMapEntry>)
    requires
        memory_map_wf(m),
    ensures
        forall|i: int, j: int| 0 <= i < j < usable_frames(m).len() ==> usable_frames(m)[i] != usable_frames(m)[j],
    decreases m.len(),
{
    if m.len() > 0 {
        let rest = m.drop_last();
        assert(memory_map_wf(rest));
        lemma_usable_frames_distinct(rest);
        let e = m.last();
        assert(m[m.len() - 1] == e);
        if entry_usable(e) {
            assert forall|i: int| 0 <= i < rest.len() implies #[trigger] rest[i].base + rest[i].length <= e.base by {
                assert(rest[i] == m[i]);
            }
            lemma_usable_frames_below(rest, e.base as int);
            let ef = entry_frames(e);
            let ur = usable_frames(rest);
            let uf = usable_frames(m);
            assert(uf == ef + ur);
            assert forall|i: int, j: int| 0 <= i < j < uf.len() implies uf[i] != uf[j] by {
                if j < ef.len() {
                    assert(uf[i] == ef[i] && uf[j] == ef[j]);
                } else if i < ef.len() {
                    assert(uf[i] == ef[i]);
                    assert(uf[j] == ur[j - ef.len()]);
                    assert(e.base + e.length <= u64::MAX);
                    assert(i * 4096 < e.length) by (nonlinear_arith)
                        requires 0 <= i < e.length / 4096;
                    assert(ef[i] == e.base + i * 4096);
                } else {
                    assert(uf[i] == ur[i - ef.len()] && uf[j] == ur[j - ef.len()]);
                }
            }
        } else {
            assert(usable_frames(m) == usable_frames(rest));
        }
    }
}

/// In runt mode a run of allocations that found all its frames took them in
/// order from the usable frames, from `next` on.
proof fn lemma_runt_run(m: Seq<MemoryMapEntry>, next: int, n: nat)
    ensures
        frames_run(m, next, None, n).0 matches Some(fs) ==> {
            &&& fs.len() == n
            &&& frames_run(m, next, None, n).1 == next + n
            &&& n > 0 ==> 0 <= next && next + n <= usable_frames(m).len()
            &&& forall|k: int| 0 <= k < n ==> #[trigger] fs[k] == usable_frames(m)[next + k]
        },
        frames_run(m, next, None, n).2 is None,
    decreases n,
{
    if n > 0 {
        lemma_runt_run(m, next, (n - 1) as nat);
        let prev = frames_run(m, next, None, (n - 1) as nat);
        if prev.0 is Some {
            let fs = prev.0->Some_0;
            assert(prev.2 is None);
            let step = frame_step(m, prev.1, prev.2);
            if step.0 is Some {
                let fs2 = fs.push(step.0->Some_0);
                assert(frames_run(m, next, None, n) == (Some(fs2), step.1, step.2));
                assert forall|k: int| 0 <= k < n implies #[trigger] fs2[k] == usable_frames(m)[next + k] by {
                    if k < n - 1 {
                        assert(fs2[k] == fs[k]);
                    }
                }
            }
        }
    }
}

/// In full mode a run of allocations takes frames in strictly falling
/// order, and what stays free lies below each of them.
proof fn lemma_full_run(m: Seq<MemoryMapEntry>, next: int, s: Seq<MemoryRegion>, n: nat)
    requires
        free_list_wf(s),
        disjoint_regions(s),
    ensures
        frames_run(m, next, Some(s), n).2 matches Some(s2) && free_list_wf(s2) && disjoint_regions(s2) && {
            frames_run(m, next, Some(s), n).0 matches Some(fs) ==> {
                &&& forall|i: int, j: int| 0 <= i < j < fs.len() ==> fs[i] > fs[j]
                &&& forall|r: int, k: int| 0 <= r < s2.len() && 0 <= k < fs.len() ==> s2[r].end <= fs[k]
            }
        },
    decreases n,
{
    if n > 0 {
        lemma_full_run(m, next, s, (n - 1) as nat);
        let prev = frames_run(m, next, Some(s), (n - 1) as nat);
        let sp = prev.2->Some_0;
        if prev.0 is Some && sp.len() > 0 {
            let fs = prev.0->Some_0;
            let f = top_frame(sp);
            let s2 = take_top_frame(sp);
            lemma_take_top_frame_covers(sp);
            let last = sp.last();
            assert(sp[sp.len() - 1] == last);
            assert(region_ok(last));
            assert(f < last.end);
            assert forall|r: int| 0 <= r < s2.len() implies #[trigger] s2[r].end <= f by {
                if r < sp.len() - 1 {
                    assert(s2[r] == sp[r]);
                    assert(sp[r].end <= sp[sp.len() - 1].start);
                }
            }
            let fs2 = fs.push(f);
            assert forall|i: int, j: int| 0 <= i < j < fs2.len() implies fs2[i] > fs2[j] by {
                if j == fs.len() {
                    assert(sp[sp.len() - 1].end <= fs[i]);
                }
            }
            assert forall|r: int, k: int| 0 <= r < s2.len() && 0 <= k < fs2.len() implies s2[r].end <= fs2[k] by {
                if k < fs.len() {
                    assert(sp[sp.len() - 1].end <= fs[k]);
                }
            }
        } else if prev.0 is Some {
            assert(take_top_frame(sp) == sp);
        }
    } else {
        assert(frames_run(m, next, Some(s), 0).2 == Some(s));
    }
}

/// An allocation never hands out the same frame twice: the frames of a run
/// of allocations that found them all are all different, from the usable
/// frames of a well-formed memory map in runt mode, or from a free list of
/// regions that do not overlap in full mode.
pub proof fn lemma_allocated_frames_distinct(m: Seq<MemoryMapEntry>, next: int, free: Option<Seq<MemoryRegion>>, n: nat)
    requires
        memory_map_wf(m),
        free matches Some(s) ==> free_list_wf(s) && disjoint_regions(s),
    ensures
        frames_run(m, next, free, n).0 matches Some(fs) ==> forall|i: int, j: int| 0 <= i < j < fs.len() ==> fs[i] != fs[j],
{
    match free {
        None => {
            lemma_runt_run(m, next, n);
            lemma_usable_frames_distinct(m);
            if frames_run(m, next, None, n).0 is Some {
                let fs = frames_run(m, next, None, n).0->Some_0;
                assert forall|i: int, j: int| 0 <= i < j < fs.len() implies fs[i] != fs[j] by {
                    assert(fs[i] == usable_frames(m)[next + i]);
                    assert(fs[j] == usable_frames(m)[next + j]);
                }
            }
        },
        Some(s) => {
            lemma_full_run(m, next, s, n);
        },
    }
}

proof fn lemma_dma_stop_found(s: Seq<MemoryRegion>, size: int)
    ensures
        0 <= dma_stop(s, size) <= s.len(),
        dma_stop(s, size) < s.len() ==> ({
            let r = s[dma_stop(s, size)];
            r.start + size >= 0x1_0000_0000 || r.end - r.start >= size
        }),
        forall|k: int| 0 <= k < dma_stop(s, size) ==>
            #[trigger] s[k].start + size < 0x1_0000_0000 && s[k].end - s[k].start < size,
    decreases s.len(),
{
    if s.len() > 0 {
        lemma_dma_stop_found(s.drop_last(), size);
        let d = dma_stop(s.drop_last(), size);
        if d < s.len() - 1 {
            assert(s.drop_last()[d] == s[d]);
        }
        assert forall|k: int| 0 <= k < dma_stop(s, size) implies
            #[trigger] s[k].start + size < 0x1_0000_0000 && s[k].end - s[k].start < size by {
            if k < s.len() - 1 {
                assert(s.drop_last()[k] == s[k]);
            }
        }
    }
}

/// A DMA allocation from a disjoint, well-formed free list takes exactly the
/// memory it hands out: a start `p` given for `size` bytes lies below 4 GiB
/// with the whole of `[p, p + size)`, all of it was free, and afterwards an
/// address is free exactly when it was free before and lies outside
/// `[p, p + size)`. It is the lowest free region with room: every free
/// region below `p` is too small. When nothing is handed out the list is
/// unchanged.
pub proof fn lemma_dma_result_covers(s: Seq<MemoryRegion>, size: int)
    requires
        free_list_wf(s),
        disjoint_regions(s),
        size >= 0,
    ensures
        match dma_result(s, size).0 {
            Some(p) => {
                &&& p + size < 0x1_0000_0000
                &&& forall|a: int| p <= a < p + size ==> covers(s, a)
                &&& forall|a: int| covers(dma_result(s, size).1, a) <==> (covers(s, a) && !(p <= a < p + size))
                &&& forall|k: int| 0 <= k < s.len() && (#[trigger] s[k]).start < p ==> s[k].end - s[k].start < size
            },
            None => dma_result(s, size).1 == s,
        },
{
    lemma_dma_stop_found(s, size);
    let i = dma_stop(s, size);
    if i < s.len() && s[i].start + size < 0x1_0000_0000 {
        let r = s[i];
        let p = r.start as int;
        let rest = s.remove(i);
        let t = dma_result(s, size).1;
        assert(r.end - r.start >= size);
        assert forall|k: int| 0 <= k < s.len() && (#[trigger] s[k]).start < p implies s[k].end - s[k].start < size by {
            if k >= i {
                if k > i {
                    assert(s[i].start < s[k].start);
                }
            }
        }
        assert forall|a: int| p <= a < p + size implies covers(s, a) by {
            assert(s[i].start <= a < s[i].end);
        }
        // every other region lies wholly before or after `r`
        assert forall|a: int| covers(rest, a) implies !(r.start <= a < r.end) by {
            let k = choose|k: int| 0 <= k < rest.len() && (#[trigger] rest[k]).start <= a < rest[k].end;
            if k < i {
                assert(rest[k] == s[k]);
                assert(s[k].end <= s[i].start);
            } else {
                assert(rest[k] == s[k + 1]);
                assert(s[i].end <= s[k + 1].start);
            }
        }
        if r.end - r.start > size {
            let piece = MemoryRegion { start: (r.start + size) as u64, end: r.end };
            assert(sorted_regions(rest)) by {
                assert forall|x: int, y: int| 0 <= x < y < rest.len() implies rest[x].start < rest[y].start by {
                    let x2 = if x < i { x } else { x + 1 };
                    let y2 = if y < i { y } else { y + 1 };
                    assert(rest[x] == s[x2] && rest[y] == s[y2]);
                }
            }
            assert forall|k: int| 0 <= k < rest.len() implies (#[trigger] rest[k]).start != piece.start by {
                if k < i {
                    assert(rest[k] == s[k]);
                    assert(s[k].start < s[i].start);
                } else {
                    assert(rest[k] == s[k + 1]);
                    assert(s[i].end <= s[k + 1].start);
                }
            }
            assert forall|a: int| covers(t, a) <==> (covers(s, a) && !(p <= a < p + size)) by {
                lemma_covers_insert_key(rest, piece, a);
                lemma_covers_remove(s, i, a);
            }
        } else {
            assert forall|a: int| covers(t, a) <==> (covers(s, a) && !(p <= a < p + size)) by {
                lemma_covers_remove(s, i, a);
            }
        }
    }
}
} // verus!
