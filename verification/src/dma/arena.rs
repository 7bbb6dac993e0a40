//! A bump allocator over pages set aside for DMA. It places values and
//! buffers one after another, each at an alignment asked for, and names a
//! placement by its offset (a tag).
use vstd::prelude::*;

verus! {

/// Bytes in a page of the backing store.
pub const ARENA_PAGE_SIZE: usize = 4096;

/// A placement in an arena: its offset from the start of the backing store.
#[derive(Debug, Clone, Copy, PartialEq, Eq, Structural)]
pub struct ArenaTag(pub usize);

/// An arena: its pages, each by its virtual and physical address, the
/// offset where the next placement may start, and (in proofs only) the
/// ranges of offsets handed out so far, oldest first.
pub struct Arena {
    pub backing_store: Vec<(u64, u64)>,
    pub next_free_store_spot: usize,
    pub placed: Ghost<Seq<(int, int)>>,
}

/// Where a placement asked for at `next` with `alignment` starts: with an
/// alignment, the next multiple of it above `next` (a full step when `next`
/// is already a multiple); without one, `next` itself.
pub open spec fn aligned_start(next: int, alignment: int) -> int {
    if alignment == 0 { next } else { next + (alignment - next % alignment) }
}

/// A placement made at `place`: its tag, and the virtual and physical
/// addresses of its first byte.
pub open spec fn placement(store: Seq<(u64, u64)>, place: int) -> (ArenaTag, u64, u64) {
    let page = store[place / 4096];
    (ArenaTag(place as usize), (page.0 + place % 4096) as u64, (page.1 + place % 4096) as u64)
}

impl Arena {
    /// Every page lies below the top of the address space, and the store's
    /// size can be counted. The ranges handed out come one after another,
    /// none overlapping the next, all below the next free offset.
    pub open spec fn wf(&self) -> bool {
        &&& 4096 * self.backing_store@.len() <= usize::MAX
        &&& forall|i: int| 0 <= i < self.placed@.len() ==>
                0 <= (#[trigger] self.placed@[i]).0 <= self.placed@[i].1 <= self.next_free_store_spot
        &&& forall|i: int, j: int| 0 <= i < j < self.placed@.len() ==>
                (#[trigger] self.placed@[i]).1 <= (#[trigger] self.placed@[j]).0
        &&& forall|i: int| 0 <= i < self.backing_store@.len() ==>
                (#[trigger] self.backing_store@[i]).0 + 4096 <= u64::MAX
                && self.backing_store@[i].1 + 4096 <= u64::MAX
    }

    /// Bytes the backing store holds.
    pub open spec fn capacity(&self) -> int {
        4096 * (self.backing_store@.len() as int)
    }

    /// An arena over one page, given by its virtual and physical address.
    pub fn new(virt: u64, phys: u64) -> (r: Arena)
        requires
            virt + 4096 <= u64::MAX,
            phys + 4096 <= u64::MAX,
        ensures
            r.wf(),
            r.backing_store@ == seq![(virt, phys)],
            r.next_free_store_spot == 0,
            r.placed@ == Seq::<(int, int)>::empty(),
    {
        let mut store: Vec<(u64, u64)> = Vec::new();
        store.push((virt, phys));
        Arena { backing_store: store, next_free_store_spot: 0, placed: Ghost(Seq::empty()) }
    }

    /// Place `length` bytes at `alignment` (0: none). The next free offset
    /// moves past the placement whether or not it fits; `None` when it runs
    /// past the backing store. A placement made lies after every placement
    /// made before it, so none overlaps another. A placement of nothing
    /// right at the end is a panic in indexing, so it is not asked for.
    pub fn get_place(&mut self, alignment: usize, length: usize) -> (r: Option<(ArenaTag, u64, u64)>)
        requires
            old(self).wf(),
            aligned_start(old(self).next_free_store_spot as int, alignment as int) + length <= usize::MAX,
            !(length == 0 && aligned_start(old(self).next_free_store_spot as int, alignment as int)
                == old(self).capacity()),
        ensures
            final(self).wf(),
            final(self).backing_store == old(self).backing_store,
            ({
                let place = aligned_start(old(self).next_free_store_spot as int, alignment as int);
                &&& final(self).next_free_store_spot == place + length
                &&& if place + length > old(self).capacity() {
                        &&& r is None
                        &&& final(self).placed@ == old(self).placed@
                    } else {
                        &&& r == Some(placement(old(self).backing_store@, place))
                        &&& final(self).placed@ == old(self).placed@.push((place, place + length))
                        &&& forall|i: int| 0 <= i < old(self).placed@.len() ==>
                                (#[trigger] old(self).placed@[i]).1 <= place
                    }
            }),
    {
        proof {
            if alignment > 0 {
                lemma_aligned_start(self.next_free_store_spot as int, alignment as int);
            }
        }
        let mut next = self.next_free_store_spot;
        if alignment != 0 {
            next = next + (alignment - next % alignment);
        }
        self.next_free_store_spot = next + length;
        let cap = 4096 * self.backing_store.len();
        if next + length > cap {
            return None;
        }
        proof {
            self.placed@ = self.placed@.push((next as int, next + length));
        }
        assert(next / 4096 < self.backing_store@.len()) by (nonlinear_arith)
            requires
                next < cap,
                cap == 4096 * self.backing_store@.len(),
        ;
        let (virt_page, phys_page) = self.backing_store[next / 4096];
        proof {
            assert(self.backing_store@[(next / 4096) as int] == (virt_page, phys_page));
        }
        let off = (next % 4096) as u64;
        Some((ArenaTag(next), virt_page + off, phys_page + off))
    }

    /// The virtual address of the placement `tag` names. A tag past the
    /// backing store is a panic in indexing, so it is not given.
    pub fn tag_to_virt(&self, tag: ArenaTag) -> (r: u64)
        requires
            self.wf(),
            tag.0 < self.capacity(),
        ensures
            r == placement(self.backing_store@, tag.0 as int).1,
    {
        assert(tag.0 / 4096 < self.backing_store@.len()) by (nonlinear_arith)
            requires
                tag.0 < 4096 * self.backing_store@.len(),
        ;
        let (virt_page, _) = self.backing_store[tag.0 / 4096];
        virt_page + (tag.0 % 4096) as u64
    }
}

/// With an alignment, a placement starts at a multiple of it, past where
/// the free space began.
pub proof fn lemma_aligned_start(next: int, alignment: int)
    requires
        next >= 0,
        alignment > 0,
    ensures
        aligned_start(next, alignment) % alignment == 0,
        aligned_start(next, alignment) > next,
{
    assert((next + (alignment - next % alignment)) % alignment == 0) by (nonlinear_arith)
        requires
            next >= 0,
            alignment > 0,
    {
        vstd::arithmetic::div_mod::lemma_fundamental_div_mod(next, alignment);
        vstd::arithmetic::div_mod::lemma_mod_multiples_basic(next / alignment + 1, alignment);
        assert(next + (alignment - next % alignment) == alignment * (next / alignment + 1));
    }
}

/// Two placements made one after the other do not overlap: the second
/// starts where the first ends or later.
pub proof fn lemma_placements_disjoint(next: int, first_alignment: int, first_length: int, second_alignment: int)
    requires
        next >= 0,
        first_alignment >= 0,
        first_length >= 0,
        second_alignment >= 0,
    ensures
        aligned_start(next, first_alignment) >= next,
        aligned_start(next, first_alignment) + first_length
            <= aligned_start(aligned_start(next, first_alignment) + first_length, second_alignment),
{
    if first_alignment > 0 {
        lemma_aligned_start(next, first_alignment);
    }
    if second_alignment > 0 {
        lemma_aligned_start(aligned_start(next, first_alignment) + first_length, second_alignment);
    }
}

} // verus!
