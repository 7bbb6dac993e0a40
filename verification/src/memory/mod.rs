use vstd::prelude::*;

pub mod frame_allocator;
pub mod user_address_space;
pub mod page_allocator;

verus! {

/// Size of one page or frame.
pub const PAGE_SIZE: u64 = 4096;

/// A half-open range of addresses `[start, end)`.
#[derive(Clone, Copy, Debug, PartialEq, Eq, Structural)]
pub struct MemoryRegion {
    pub start: u64,
    pub end: u64,
}

/// Highest physical address plus one that the paging structures can name (52 bits).
pub open spec fn phys_limit() -> int {
    0x10_0000_0000_0000
}

/// Whether a virtual address is canonical: bits 47 to 63 all equal.
pub open spec fn is_canonical(v: u64) -> bool {
    v < 0x0000_8000_0000_0000 || v >= 0xFFFF_8000_0000_0000
}

/// RAM the frame allocator found usable. The kernel panics when there is
/// no frame allocator yet, so there must be one.
pub fn get_usable_ram(allocator: &Option<frame_allocator::VenixFrameAllocator>) -> (r: u64)
    requires
        allocator is Some,
        frame_allocator::usable_length(allocator->0.memory_map@) <= u64::MAX,
    ensures
        r == frame_allocator::usable_length(allocator->0.memory_map@),
{
    match allocator {
        Some(a) => a.get_usable_memory(),
        None => 0,
    }
}

/// The address through which the direct map at `direct_map_offset` reaches
/// physical address `phys_addr`. The address must be canonical (the kernel
/// panics otherwise).
pub fn get_ptr_in_hhdm(direct_map_offset: u64, phys_addr: u64) -> (r: u64)
    requires
        phys_addr + direct_map_offset <= u64::MAX,
        is_canonical((phys_addr + direct_map_offset) as u64),
    ensures
        r == phys_addr + direct_map_offset,
{
    phys_addr + direct_map_offset
}

} // verus!

verus! {

use std::collections::BTreeMap;

/// Why data could not be moved between kernel and user space.
#[derive(Debug, Clone, Copy, PartialEq, Eq, Structural)]
pub enum CopyError {
    /// A page is not mapped.
    Fault,
    /// A page is mapped but not writable by the user.
    Permission,
    /// No temporary kernel mapping could be made.
    TempAllocFailed,
    /// Part of the data was copied.
    Partial(usize),
}

/// Why a NUL-terminated string could not be read from user space.
#[derive(Debug, Clone, Copy, PartialEq, Eq, Structural)]
pub enum UserStringCopyError {
    Fault,
    Permission,
    TempAllocFailed,
    Partial(usize),
    /// Longer than 1 MiB without a NUL.
    TooLong,
    /// Not UTF-8.
    InvalidUtf8,
}

/// Longest string read from user space.
pub const MAX_USER_STRING: usize = 1024 * 1024;

/// Number of pages touched by `len` bytes at `addr`.
pub open spec fn n_user_pages(addr: int, len: int) -> int {
    (addr + len - 1) / 4096 - addr / 4096 + 1
}

/// Base of the `k`th page touched by an access at `addr`.
pub open spec fn user_page_base(addr: int, k: int) -> int {
    (addr / 4096) * 4096 + k * 4096
}

/// The frames behind the pages an access of `len` bytes at `addr` touches, in
/// order, or `Fault` when one of those pages is not in the shadow map.
pub open spec fn user_frames(m: Map<u64, u64>, addr: int, len: int) -> Result<Seq<u64>, CopyError> {
    if forall|k: int| 0 <= k < n_user_pages(addr, len) ==> m.contains_key(#[trigger] user_page_base(addr, k) as u64) {
        Ok(Seq::new(n_user_pages(addr, len) as nat, |k: int| m[user_page_base(addr, k) as u64]))
    } else {
        Err(CopyError::Fault)
    }
}

/// Look up the frames behind a user access of `len > 0` bytes at `addr`.
pub fn user_pages(mapped: &BTreeMap<u64, u64>, addr: u64, len: u64) -> (r: Result<Vec<u64>, CopyError>)
    requires
        len > 0,
        addr + len <= u64::MAX,
    ensures
        match (r, user_frames(mapped@, addr as int, len as int)) {
            (Ok(v), Ok(w)) => v@ == w,
            (Err(e), Err(f)) => e == f,
            _ => false,
        },
{
    let first_page_index = addr / 4096;
    let last_page_index = (addr + len - 1) / 4096;
    let n_pages = last_page_index - first_page_index + 1;
    let mut pages: Vec<u64> = Vec::new();
    let mut cur_vaddr = addr;
    let mut k: u64 = 0;
    while k < n_pages
        invariant
            0 <= k <= n_pages,
            n_pages == n_user_pages(addr as int, len as int),
            n_pages >= 1,
            k == 0 ==> cur_vaddr == addr,
            k > 0 && k < n_pages ==> cur_vaddr == user_page_base(addr as int, k as int),
            addr + len <= u64::MAX,
            last_page_index == (addr + len - 1) / 4096,
            first_page_index == addr / 4096,
            pages@.len() == k,
            forall|j: int| 0 <= j < k ==> mapped@.contains_key(#[trigger] user_page_base(addr as int, j) as u64),
            forall|j: int| 0 <= j < k ==> pages@[j] == mapped@[#[trigger] user_page_base(addr as int, j) as u64],
        decreases n_pages - k,
    {
        let page_base = (cur_vaddr / 4096) * 4096;
        proof {
            assert(page_base == user_page_base(addr as int, k as int));
        }
        match mapped.get(&page_base) {
            Some(phys) => pages.push(*phys),
            None => {
                proof {
                    assert(!(forall|j: int| 0 <= j < n_user_pages(addr as int, len as int) ==> mapped@.contains_key(#[trigger] user_page_base(addr as int, j) as u64)));
                }
                return Err(CopyError::Fault);
            },
        }
        if k + 1 < n_pages {
            cur_vaddr = page_base + 4096;
        }
        k = k + 1;
    }
    proof {
        assert(pages@ =~= Seq::new(n_pages as nat, |j: int| mapped@[user_page_base(addr as int, j) as u64]));
    }
    Ok(pages)
}

/// Read `len` bytes starting `offset` bytes into a temporary kernel window
/// over the touched pages, page by page.
pub fn gather_from_window(window: &Vec<u8>, offset: usize, len: usize) -> (r: Vec<u8>)
    requires
        offset < 4096,
        offset + len <= window@.len(),
    ensures
        r@ == window@.subrange(offset as int, offset + len),
{
    let mut result: Vec<u8> = Vec::new();
    let mut remaining = len;
    let mut i: usize = 0;
    let wlen = window.len();
    while remaining > 0
        invariant
            wlen == window@.len(),
            offset < 4096,
            offset + len <= window@.len(),
            remaining <= len,
            result@ == window@.subrange(offset as int, offset + (len - remaining)),
            remaining > 0 && remaining < len ==> offset + (len - remaining) == i * 4096,
            remaining == len ==> i == 0,
        decreases remaining,
    {
        let page_offset: usize = if i == 0 { offset } else { 0 };
        let available_in_page = 4096 - page_offset;
        let to_copy = if remaining <= available_in_page { remaining } else { available_in_page };
        let base = i * 4096 + page_offset;
        let mut j: usize = 0;
        while j < to_copy
            invariant
                j <= to_copy,
                base == offset + (len - remaining),
                base + to_copy <= window@.len(),
                wlen == window@.len(),
                to_copy <= remaining,
                remaining <= len,
                offset + len <= window@.len(),
                result@ == window@.subrange(offset as int, base + j),
            decreases to_copy - j,
        {
            result.push(window[base + j]);
            proof {
                assert(result@ =~= window@.subrange(offset as int, base + j + 1));
            }
            j = j + 1;
        }
        remaining = remaining - to_copy;
        i = i + 1;
    }
    result
}

/// Write `src` into a temporary kernel window over the touched pages,
/// starting `offset` bytes in.
pub fn scatter_into_window(window: &mut Vec<u8>, offset: usize, src: &Vec<u8>)
    requires
        offset + src@.len() <= old(window)@.len(),
    ensures
        final(window)@.len() == old(window)@.len(),
        final(window)@.subrange(offset as int, offset + src@.len()) == src@,
        forall|k: int|
            0 <= k < old(window)@.len() && !(offset <= k < offset + src@.len()) ==> final(window)@[k]
                == old(window)@[k],
{
    let mut j: usize = 0;
    let wlen = window.len();
    while j < src.len()
        invariant
            wlen == window@.len(),
            j <= src@.len(),
            offset + src@.len() <= window@.len(),
            window@.len() == old(window)@.len(),
            forall|k: int| offset <= k < offset + j ==> window@[k] == src@[k - offset],
            forall|k: int|
                0 <= k < window@.len() && !(offset <= k < offset + j) ==> window@[k] == old(window)@[k],
        decreases src@.len() - j,
    {
        assert(offset + j < window@.len());
        window.set(offset + j, src[j]);
        j = j + 1;
    }
    assert(window@.subrange(offset as int, offset + src@.len()) =~= src@);
}

/// What to do after one page of a user string has been read.
#[derive(Debug, Clone, Copy, PartialEq, Eq, Structural)]
pub enum StringCopyStep {
    /// A NUL was found: the string is complete.
    Done,
    /// No NUL yet: read the next page.
    Continue,
    /// No NUL in the first megabyte.
    TooLong,
}

/// Index of the first NUL in `s`, or its length when there is none.
pub open spec fn first_nul(s: Seq<u8>) -> int
    decreases s.len(),
{
    if s.len() == 0 {
        0
    } else if first_nul(s.drop_last()) < s.len() - 1 {
        first_nul(s.drop_last())
    } else if s.last() == 0 {
        s.len() - 1
    } else {
        s.len() as int
    }
}

proof fn lemma_first_nul(s: Seq<u8>)
    ensures
        0 <= first_nul(s) <= s.len(),
        forall|k: int| 0 <= k < first_nul(s) ==> s[k] != 0,
        first_nul(s) < s.len() ==> s[first_nul(s)] == 0,
    decreases s.len(),
{
    if s.len() > 0 {
        lemma_first_nul(s.drop_last());
        assert forall|k: int| 0 <= k < first_nul(s) && k < s.len() - 1 implies s.drop_last()[k] == s[k] by {}
    }
}

/// Fold one page read from user space into the bytes of a string collected
/// so far: up to the first NUL when there is one, the whole page otherwise.
pub fn string_copy_step(collected: &mut Vec<u8>, page: &Vec<u8>) -> (r: StringCopyStep)
    requires
        old(collected)@.len() + page@.len() <= usize::MAX,
    ensures
        first_nul(page@) < page@.len() ==> {
            &&& r == StringCopyStep::Done
            &&& final(collected)@ == old(collected)@ + page@.subrange(0, first_nul(page@))
        },
        first_nul(page@) == page@.len() ==> {
            &&& final(collected)@ == old(collected)@ + page@
            &&& r == (if final(collected)@.len() > MAX_USER_STRING {
                StringCopyStep::TooLong
            } else {
                StringCopyStep::Continue
            })
        },
{
    proof {
        lemma_first_nul(page@);
    }
    let ghost c0 = collected@;
    let mut i: usize = 0;
    while i < page.len()
        invariant
            i <= page@.len(),
            forall|k: int| 0 <= k < i ==> page@[k] != 0,
            collected@ == c0 + page@.subrange(0, i as int),
            c0 == old(collected)@,
            c0.len() + page@.len() <= usize::MAX,
        decreases page@.len() - i,
    {
        if page[i] == 0 {
            proof {
                lemma_first_nul(page@);
                let f = first_nul(page@);
                if f < i {
                    assert(page@[f] == 0);
                } else if f > i {
                    assert(page@[i as int] != 0);
                }
            }
            return StringCopyStep::Done;
        }
        collected.push(page[i]);
        proof {
            assert(page@.subrange(0, i + 1) =~= page@.subrange(0, i as int).push(page@[i as int]));
        }
        i = i + 1;
    }
    proof {
        lemma_first_nul(page@);
        assert(page@.subrange(0, page@.len() as int) =~= page@);
        if first_nul(page@) < page@.len() {
            assert(page@[first_nul(page@)] != 0);
        }
    }
    if collected.len() > MAX_USER_STRING {
        StringCopyStep::TooLong
    } else {
        StringCopyStep::Continue
    }
}

/// Page-aligned physical window that covers `size` bytes of MMIO at `phys`:
/// its start, its length, and the offset of `phys` inside it.
pub fn mmio_window(phys_addr: u64, size: u64) -> (r: (u64, u64, u64))
    requires
        phys_addr + size + 4095 <= u64::MAX,
    ensures
        r.0 == phys_addr - phys_addr % 4096,
        r.1 == ((phys_addr + size + 4095) / 4096) * 4096 - r.0,
        r.2 == phys_addr - r.0,
{
    let start_phys_addr = phys_addr - (phys_addr % 4096);
    let end_phys_addr = (((phys_addr + size) + 4095) / 4096) * 4096;
    let total_size = end_phys_addr - start_phys_addr;
    (start_phys_addr, total_size, phys_addr - start_phys_addr)
}

/// The frames of a physically contiguous range: one per 4096 bytes of `size`,
/// each the frame containing `start + k * 4096`.
pub fn contiguous_frames(start: u64, size: u64) -> (r: Vec<u64>)
    requires
        start + size + 4096 <= u64::MAX,
    ensures
        r@.len() == (size + 4095) / 4096,
        forall|k: int| 0 <= k < r@.len() ==> r@[k] == ((start + k * 4096) / 4096) * 4096,
        r@ == contiguous_seq(start as int, size as int),
{
    let mut frames: Vec<u64> = Vec::new();
    let mut addr: u64 = 0;
    while addr < size
        invariant
            addr <= size + 4095,
            addr % 4096 == 0,
            start + size + 4096 <= u64::MAX,
            frames@.len() == addr / 4096,
            forall|k: int| 0 <= k < frames@.len() ==> frames@[k] == ((start + k * 4096) / 4096) * 4096,
        decreases size + 4096 - addr,
    {
        frames.push(((start + addr) / 4096) * 4096);
        addr = addr + 4096;
    }
    assert(frames@ =~= contiguous_seq(start as int, size as int));
    frames
}

/// The frames of a physically contiguous range of `size` bytes from `start`.
pub open spec fn contiguous_seq(start: int, size: int) -> Seq<u64> {
    Seq::new(((size + 4095) / 4096) as nat, |k: int| (((start + k * 4096) / 4096) * 4096) as u64)
}

} // verus!

verus! {

use crate::memory::frame_allocator::{VenixFrameAllocator, frames_run, lemma_frames_run_len, dma_result};
use crate::memory::page_allocator::{VenixPageAllocator, sign_extend_48, fit_index, kernel_pages_for, kernel_free_wf, P4_SPAN};
use crate::memory::user_address_space::{AddressSpace, page_of, first_fit, fix_zero, first_fit_after, pages_for,
    map_pages, req_start, req_end, first_carve, carve_after, lemma_first_fit, user_region_ok, USER_SPACE_END,
    PageVirtPhys};

/// Page-table entry flags.
pub const PAGE_PRESENT: u64 = 0x1;
pub const PAGE_WRITABLE: u64 = 0x2;
pub const PAGE_USER_ACCESSIBLE: u64 = 0x4;
pub const PAGE_GLOBAL: u64 = 0x100;

/// The flags of a page user space may read and write.
pub const USER_PAGE_FLAGS: u64 = 0x7;

/// The flags of a kernel page, mapped in every address space.
pub const KERNEL_PAGE_FLAGS: u64 = 0x103;

/// Who may reach memory being allocated: the kernel only, user space
/// anywhere it fits, or user space from a given address on.
#[derive(Debug, Clone, Copy, PartialEq, Eq, Structural)]
pub enum MemoryAccessRestriction {
    Kernel,
    User,
    UserByStart(u64),
}

/// A page to map: the page, the frame behind it, and the entry's flags.
#[derive(Debug, Clone, Copy, PartialEq, Eq, Structural)]
pub struct PageMapping {
    pub page: u64,
    pub frame: u64,
    pub flags: u64,
}

/// Why an allocation failed.
#[derive(Debug, Clone, Copy, PartialEq, Eq, Structural)]
pub enum AllocError {
    FrameAllocationFailed,
}

/// Number of pages `size > 0` bytes from `start` touch.
pub open spec fn page_count(start: int, size: int) -> int {
    (start + size - 1) / 4096 - start / 4096 + 1
}

/// The `k`th page `size` bytes from `start` touch.
pub open spec fn page_at(start: int, k: int) -> int {
    (start / 4096) * 4096 + 4096 * k
}

/// The mappings of the pages from `start` on to `frames`, in order.
pub open spec fn page_mappings(start: int, frames: Seq<u64>, flags: u64) -> Seq<PageMapping> {
    Seq::new(frames.len(), |k: int| PageMapping { page: page_at(start, k) as u64, frame: frames[k], flags })
}

/// The shadow map after each page from `start` on is given its frame, where
/// the page is in the map.
pub open spec fn assign_frames(m: Map<u64, u64>, start: int, frames: Seq<u64>) -> Map<u64, u64>
    decreases frames.len(),
{
    if frames.len() == 0 {
        m
    } else {
        let m1 = assign_frames(m, start, frames.drop_last());
        let p = page_at(start, frames.len() - 1) as u64;
        if m1.contains_key(p) { m1.insert(p, frames.last()) } else { m1 }
    }
}

/// Where user memory goes and what the address space looks like once the
/// range is reserved: the start, the free ranges, the shadow map.
pub open spec fn user_reservation(s: Seq<MemoryRegion>, m: Map<u64, u64>, v: Option<u64>, size: int)
    -> (int, Seq<MemoryRegion>, Map<u64, u64>) {
    match v {
        None => {
            let need = pages_for(size) * 4096;
            let i = first_fit(s, need);
            let r = fix_zero(s[i]).start as int;
            (r, first_fit_after(s, i, need), map_pages(m, r, r + need))
        },
        Some(addr) => {
            let a = req_start(addr as int);
            let e = req_end(addr as int, size);
            (addr as int, carve_after(s, first_carve(s, a, e), a, e), map_pages(m, a, e))
        },
    }
}

/// Whether user memory of `size` bytes can be reserved in the address
/// space: something fits, or the range asked for is free.
pub open spec fn user_reservable(a: AddressSpace, v: Option<u64>, size: int) -> bool {
    match v {
        None => {
            &&& size <= u64::MAX - 4095
            &&& first_fit(a.free_regions@, pages_for(size) * 4096) < a.free_regions@.len()
        },
        Some(addr) => {
            &&& addr + size <= u64::MAX
            &&& req_end(addr as int, size) <= u64::MAX
            &&& first_carve(a.free_regions@, req_start(addr as int), req_end(addr as int, size)) < a.free_regions@.len()
        },
    }
}

proof fn lemma_last_page(x: int)
    requires
        x >= 1,
    ensures
        ((x - 1) / 4096) * 4096 + 4096 == (if x % 4096 != 0 { x + (4096 - x % 4096) } else { x }),
        ((x - 1) / 4096) * 4096 <= x - 1,
{
}

/// The page mappings and shadow map entries for `frames`, from `start` on.
fn map_frames(address_space: &mut AddressSpace, start: u64, frames: &Vec<u64>, flags: u64) -> (r: Vec<PageMapping>)
    requires
        (start / 4096) * 4096 + 4096 * frames@.len() <= u64::MAX,
    ensures
        r@ == page_mappings(start as int, frames@, flags),
        final(address_space).mapped_regions@ == assign_frames(old(address_space).mapped_regions@, start as int, frames@),
        final(address_space).free_regions@ == old(address_space).free_regions@,
        final(address_space).pt4 == old(address_space).pt4,
{
    let first = (start / 4096) * 4096;
    let mut out: Vec<PageMapping> = Vec::new();
    let mut k: usize = 0;
    while k < frames.len()
        invariant
            k <= frames@.len(),
            first == (start / 4096) * 4096,
            first + 4096 * frames@.len() <= u64::MAX,
            out@ == page_mappings(start as int, frames@.take(k as int), flags),
            address_space.mapped_regions@ == assign_frames(old(address_space).mapped_regions@, start as int, frames@.take(k as int)),
            address_space.free_regions@ == old(address_space).free_regions@,
            address_space.pt4 == old(address_space).pt4,
        decreases frames@.len() - k,
    {
        assert(frames@.take(k + 1).drop_last() =~= frames@.take(k as int));
        let page = first + 4096 * (k as u64);
        let f = frames[k];
        address_space.assign_virt_phys(page, f);
        out.push(PageMapping { page, frame: f, flags });
        assert(out@ =~= page_mappings(start as int, frames@.take(k + 1), flags));
        k = k + 1;
    }
    assert(frames@.take(k as int) =~= frames@);
    out
}

/// Allocate `size` bytes of user memory in `address_space`: reserve the
/// range (anywhere it fits, or from the address asked for), take a frame
/// for each of its pages, enter each page with its frame in the shadow
/// map, and give the start, the frames, and the mappings to make (user
/// readable and writable). When the frames run out the range stays
/// reserved and `FrameAllocationFailed` is given. Kernel memory is not
/// allocated here, and running out of room, or asking for a range in use,
/// is a kernel panic, so they are not asked for.
pub fn user_allocate(
    size: u64,
    access_restriction: MemoryAccessRestriction,
    address_space: &mut AddressSpace,
    frames: &mut VenixFrameAllocator,
) -> (r: Result<(u64, Vec<u64>, Vec<PageMapping>), AllocError>)
    requires
        size > 0,
        size / 4096 + 2 < usize::MAX,
        !(access_restriction is Kernel),
        old(address_space).wf(),
        user_reservable(*old(address_space),
            match access_restriction { MemoryAccessRestriction::UserByStart(a) => Some(a), _ => None }, size as int),
        old(frames).wf(),
        old(frames).free_regions is None ==> old(frames).next + size / 4096 + 2 < usize::MAX,
    ensures
        ({
            let v = match access_restriction { MemoryAccessRestriction::UserByStart(a) => Some(a), _ => None::<u64> };
            let (start, free, mid) = user_reservation(old(address_space).free_regions@,
                old(address_space).mapped_regions@, v, size as int);
            let run = frames_run(old(frames).memory_map@, old(frames).next as int, old(frames).free_opt(),
                page_count(start, size as int) as nat);
            &&& final(address_space).pt4 == old(address_space).pt4
            &&& final(address_space).free_regions@ == free
            &&& final(frames).wf()
            &&& final(frames).memory_map@ == old(frames).memory_map@
            &&& final(frames).next == run.1
            &&& final(frames).free_opt() == run.2
            &&& match run.0 {
                None => r == Err::<(u64, Vec<u64>, Vec<PageMapping>), AllocError>(AllocError::FrameAllocationFailed)
                    && final(address_space).mapped_regions@ == mid,
                Some(fs) => r matches Ok((s0, v0, maps)) && s0 == start && v0@ == fs
                    && maps@ == page_mappings(start, fs, USER_PAGE_FLAGS)
                    && final(address_space).mapped_regions@ == assign_frames(mid, start, fs),
            }
        }),
{
    let start = match access_restriction {
        MemoryAccessRestriction::UserByStart(addr) => {
            let _ = address_space.get_page_range_from_start(addr, size);
            addr
        },
        _ => address_space.get_page_range(size),
    };
    proof {
        lemma_last_page(start + size);
    }
    let first = (start / 4096) * 4096;
    let last = ((start + size - 1) / 4096) * 4096;
    let n = (last - first) / 4096 + 1;
    assert(first + 4096 * n == last + 4096);
    assert(last + 4096 <= u64::MAX);
    let ghost old_frames = *frames;
    let fr = match frames.allocate_frames(n as usize) {
        None => return Err(AllocError::FrameAllocationFailed),
        Some(v) => v,
    };
    proof {
        lemma_frames_run_len(old_frames.memory_map@, old_frames.next as int, old_frames.free_opt(), n as nat);
    }
    let maps = map_frames(address_space, start, &fr, USER_PAGE_FLAGS);
    Ok((start, fr, maps))
}


/// Giving the pages from `start` on their frames keeps the map's keys, and
/// each of those pages then has its frame.
proof fn lemma_assign_frames(m: Map<u64, u64>, start: int, frames: Seq<u64>)
    requires
        start >= 0,
        page_at(start, frames.len() as int) <= u64::MAX + 1,
        forall|k: int| 0 <= k < frames.len() ==> m.contains_key(#[trigger] page_at(start, k) as u64),
    ensures
        assign_frames(m, start, frames).dom() == m.dom(),
        forall|k: int| 0 <= k < frames.len() ==> #[trigger] assign_frames(m, start, frames)[page_at(start, k) as u64] == frames[k],
    decreases frames.len(),
{
    if frames.len() > 0 {
        let fl = frames.drop_last();
        lemma_assign_frames(m, start, fl);
        let m1 = assign_frames(m, start, fl);
        let last = frames.len() - 1;
        let p = page_at(start, last) as u64;
        assert(m.contains_key(page_at(start, last) as u64));
        assert(m1.contains_key(p));
        let m2 = m1.insert(p, frames.last());
        assert(m2.dom() =~= m.dom());
        assert forall|k: int| 0 <= k < frames.len() implies #[trigger] m2[page_at(start, k) as u64] == frames[k] by {
            if k < last {
                assert(fl[k] == frames[k]);
                assert(page_at(start, k) < page_at(start, last));
                assert(page_at(start, k) as u64 != p);
                assert(m1[page_at(start, k) as u64] == frames[k]);
            }
        }
    }
}

/// A user access of the whole range finds the frames the pages of the
/// range were given, when the map held each of those pages.
proof fn lemma_user_frames_assigned(m: Map<u64, u64>, start: int, size: int, frames: Seq<u64>)
    requires
        start >= 0,
        size > 0,
        frames.len() == page_count(start, size),
        page_at(start, frames.len() as int) <= u64::MAX + 1,
        forall|k: int| 0 <= k < frames.len() ==> m.contains_key(#[trigger] page_at(start, k) as u64),
    ensures
        user_frames(assign_frames(m, start, frames), start, size) == Ok::<Seq<u64>, CopyError>(frames),
{
    lemma_assign_frames(m, start, frames);
    let m2 = assign_frames(m, start, frames);
    let n = n_user_pages(start, size);
    assert(n == frames.len());
    assert forall|k: int| 0 <= k < n implies m2.contains_key(#[trigger] user_page_base(start, k) as u64) by {
        assert(user_page_base(start, k) == page_at(start, k));
        assert(m.contains_key(page_at(start, k) as u64));
    }
    let got = Seq::new(n as nat, |k: int| m2[user_page_base(start, k) as u64]);
    assert forall|k: int| 0 <= k < n implies got[k] == frames[k] by {
        assert(user_page_base(start, k) == page_at(start, k));
        assert(m2[page_at(start, k) as u64] == frames[k]);
    }
    assert(got =~= frames);
}

/// Memory handed out by `user_allocate` can be reached: when the frames for
/// the range were found, a user access of the whole range finds exactly
/// those frames, page by page, in the address space left behind.
pub proof fn lemma_user_allocation_reachable(a: AddressSpace, v: Option<u64>, size: u64, f: VenixFrameAllocator)
    requires
        a.wf(),
        size > 0,
        user_reservable(a, v, size as int),
    ensures
        ({
            let (start, free, mid) = user_reservation(a.free_regions@, a.mapped_regions@, v, size as int);
            let run = frames_run(f.memory_map@, f.next as int, f.free_opt(), page_count(start, size as int) as nat);
            run.0 matches Some(fs) ==> user_frames(assign_frames(mid, start, fs), start, size as int)
                == Ok::<Seq<u64>, CopyError>(fs)
        }),
{
    let (start, _, mid) = user_reservation(a.free_regions@, a.mapped_regions@, v, size as int);
    let n = page_count(start, size as int);
    lemma_frames_run_len(f.memory_map@, f.next as int, f.free_opt(), n as nat);
    let run = frames_run(f.memory_map@, f.next as int, f.free_opt(), n as nat);
    lemma_last_page(start + size);
    let (lo, hi) = match v {
        None => {
            let s = a.free_regions@;
            let need = pages_for(size as int) * 4096;
            lemma_first_fit(s, need);
            let i = first_fit(s, need);
            assert(user_region_ok(s[i]));
            (start, start + need)
        },
        Some(addr) => (req_start(addr as int), req_end(addr as int, size as int)),
    };
    assert(mid == map_pages(a.mapped_regions@, lo, hi));
    assert(lo == (start / 4096) * 4096);
    assert(page_at(start, n) <= hi);
    assert(hi <= u64::MAX);
    if run.0 is Some {
        let fs = run.0->Some_0;
        assert forall|k: int| 0 <= k < fs.len() implies mid.contains_key(#[trigger] page_at(start, k) as u64) by {
            assert(page_of(lo, hi, page_at(start, k)));
        }
        lemma_user_frames_assigned(mid, start, size as int, fs);
    }
}

/// Where the frames behind kernel memory come from.
#[allow(non_camel_case_types)]
#[derive(Debug, PartialEq, Eq)]
pub enum MemoryAllocationType {
    /// Any free frames.
    RAM,
    /// The frames from this physical address on.
    MMIO(u64),
    /// Contiguous frames below 4 GiB.
    DMA,
    /// The frames given, each page aligned.
    USER_BUFFER(Vec<u64>),
}

/// Where the kernel page allocator places `size` bytes.
pub open spec fn kernel_page_start(p: VenixPageAllocator, size: int) -> int {
    match p.free_regions {
        None => p.p4_first_completely_free as int,
        Some(v) => sign_extend_48(v@[fit_index(v@, kernel_pages_for(size) * 4096)].start) as int,
    }
}

/// Whether the kernel page allocator has room for `size` bytes.
pub open spec fn kernel_placeable(p: VenixPageAllocator, size: int) -> bool {
    &&& size <= u64::MAX - 4095
    &&& match p.free_regions {
        None => kernel_pages_for(size) <= P4_SPAN,
        Some(v) => kernel_free_wf(v@) && fit_index(v@, kernel_pages_for(size) * 4096) < v@.len(),
    }
}

/// The kernel page allocator's unused ranges once `size` bytes are placed.
pub open spec fn kernel_free_after(p: VenixPageAllocator, size: int) -> Option<Seq<MemoryRegion>> {
    match p.free_regions {
        None => None,
        Some(v) => {
            let s = v@;
            let need = kernel_pages_for(size) * 4096;
            let i = fit_index(s, need);
            Some(if s[i].end - s[i].start == need {
                s.remove(i)
            } else {
                s.update(i, MemoryRegion { start: (s[i].start + need) as u64, end: s[i].end })
            })
        },
    }
}

/// The frames behind `n` pages (`size` bytes) of kernel memory of type `t`,
/// `None` when they could not be had, and the frame allocator's `next` and
/// free list after.
pub open spec fn kernel_frames(f: VenixFrameAllocator, t: MemoryAllocationType, n: nat, size: int)
    -> (Option<Seq<u64>>, int, Option<Seq<MemoryRegion>>) {
    match t {
        MemoryAllocationType::RAM => frames_run(f.memory_map@, f.next as int, f.free_opt(), n),
        MemoryAllocationType::MMIO(phys) => (Some(contiguous_seq(phys as int, size)), f.next as int, f.free_opt()),
        MemoryAllocationType::DMA => match f.free_regions {
            None => (None, f.next as int, None),
            Some(v) => {
                let d = dma_result(v@, ((size + 4095) / 4096) * 4096);
                match d.0 {
                    None => (None, f.next as int, Some(d.1)),
                    Some(p) => (Some(contiguous_seq(p as int, size)), f.next as int, Some(d.1)),
                }
            },
        },
        MemoryAllocationType::USER_BUFFER(b) => (Some(b@), f.next as int, f.free_opt()),
    }
}

/// The smaller of `a` and `b`.
pub open spec fn min_len(a: int, b: int) -> int {
    if a <= b { a } else { b }
}

/// Pair the pages from `start` on with `frames`, as many as there are of
/// the fewer.
fn pair_pages(start: u64, n: usize, frames: &Vec<u64>, flags: u64) -> (r: Vec<PageMapping>)
    requires
        (start / 4096) * 4096 + 4096 * n <= u64::MAX,
    ensures
        r@ == page_mappings(start as int, frames@.take(min_len(n as int, frames@.len() as int)), flags),
{
    let first = (start / 4096) * 4096;
    let count = if n <= frames.len() { n } else { frames.len() };
    let ghost fs = frames@.take(count as int);
    let mut out: Vec<PageMapping> = Vec::new();
    let mut k: usize = 0;
    while k < count
        invariant
            k <= count,
            count <= n,
            count <= frames@.len(),
            fs == frames@.take(count as int),
            first == (start / 4096) * 4096,
            first + 4096 * n <= u64::MAX,
            out@ =~= page_mappings(start as int, fs.take(k as int), flags),
        decreases count - k,
    {
        let page = first + 4096 * (k as u64);
        out.push(PageMapping { page, frame: frames[k], flags });
        assert(out@ =~= page_mappings(start as int, fs.take(k + 1), flags));
        k = k + 1;
    }
    assert(fs.take(k as int) =~= fs);
    out
}

/// Allocate `size` bytes of kernel memory: place the range with the kernel
/// page allocator, find the frames behind it as `alloc_type` says (free
/// frames; the frames of an MMIO range; contiguous frames below 4 GiB; the
/// frames given), and give the start, the frames, and the mappings to make
/// (present, writable, global), one per page that has a frame. When the
/// frames cannot be had the range stays placed and `FrameAllocationFailed`
/// is given.
pub fn kernel_allocate(
    size: u64,
    alloc_type: MemoryAllocationType,
    pages: &mut VenixPageAllocator,
    frames: &mut VenixFrameAllocator,
) -> (r: Result<(u64, Vec<u64>, Vec<PageMapping>), AllocError>)
    requires
        size > 0,
        size / 4096 + 2 < usize::MAX,
        kernel_placeable(*old(pages), size as int),
        kernel_page_start(*old(pages), size as int) + size + 4096 <= u64::MAX,
        old(frames).wf(),
        alloc_type is RAM && old(frames).free_regions is None ==> old(frames).next + size / 4096 + 2 < usize::MAX,
        alloc_type matches MemoryAllocationType::MMIO(phys) ==> phys + size + 4096 <= u64::MAX,
        alloc_type is DMA && old(frames).free_view().len() > 0
            ==> old(frames).free_view()[0].start + ((size + 4095) / 4096) * 4096 <= u64::MAX,
        alloc_type matches MemoryAllocationType::USER_BUFFER(b) ==> forall|k: int| 0 <= k < b@.len() ==> #[trigger] b@[k] % 4096 == 0,
    ensures
        ({
            let start = kernel_page_start(*old(pages), size as int);
            let n = page_count(start, size as int);
            let out = kernel_frames(*old(frames), alloc_type, n as nat, size as int);
            &&& final(pages).hhdm_offset == old(pages).hhdm_offset
            &&& final(pages).p4_first_completely_free == old(pages).p4_first_completely_free
            &&& final(pages).free_opt() == kernel_free_after(*old(pages), size as int)
            &&& final(frames).wf()
            &&& final(frames).memory_map@ == old(frames).memory_map@
            &&& final(frames).next == out.1
            &&& final(frames).free_opt() == out.2
            &&& match out.0 {
                None => r == Err::<(u64, Vec<u64>, Vec<PageMapping>), AllocError>(AllocError::FrameAllocationFailed),
                Some(fs) => r matches Ok((s0, v0, maps)) && s0 == start && v0@ == fs
                    && maps@ == page_mappings(start, fs.take(min_len(n, fs.len() as int)), KERNEL_PAGE_FLAGS),
            }
        }),
{
    let ghost old_frames = *frames;
    let start = pages.get_page_range(size);
    proof {
        lemma_last_page(start + size);
    }
    let first = (start / 4096) * 4096;
    let last = ((start + size - 1) / 4096) * 4096;
    let n = (last - first) / 4096 + 1;
    assert(first + 4096 * n == last + 4096);
    let fr: Vec<u64> = match alloc_type {
        MemoryAllocationType::RAM => {
            let got = frames.allocate_frames(n as usize);
            proof {
                lemma_frames_run_len(old_frames.memory_map@, old_frames.next as int, old_frames.free_opt(), n as nat);
            }
            match got {
                None => return Err(AllocError::FrameAllocationFailed),
                Some(v) => v,
            }
        },
        MemoryAllocationType::MMIO(phys) => contiguous_frames(phys, size),
        MemoryAllocationType::DMA => {
            let aligned = ((size + 4095) / 4096) * 4096;
            match frames.allocate_dma_frames(aligned) {
                None => return Err(AllocError::FrameAllocationFailed),
                Some(p) => contiguous_frames(p, size),
            }
        },
        MemoryAllocationType::USER_BUFFER(b) => b,
    };
    let maps = pair_pages(start, n as usize, &fr, KERNEL_PAGE_FLAGS);
    Ok((start, fr, maps))
}

/// Map `size` bytes of MMIO at `phys_addr`, which need not be page aligned:
/// allocate kernel memory over the page-aligned window that covers it, and
/// give the virtual address of `phys_addr` inside it, with the frames and
/// mappings of the window.
pub fn allocate_mmio(
    phys_addr: u64,
    size: u64,
    pages: &mut VenixPageAllocator,
    frames: &mut VenixFrameAllocator,
) -> (r: Result<(u64, Vec<u64>, Vec<PageMapping>), AllocError>)
    requires
        phys_addr + size + 8192 <= u64::MAX,
        ({
            let total = ((phys_addr + size + 4095) / 4096) * 4096 - (phys_addr - phys_addr % 4096);
            &&& total > 0
            &&& total / 4096 + 2 < usize::MAX
            &&& kernel_placeable(*old(pages), total)
            &&& kernel_page_start(*old(pages), total) + total + 4096 <= u64::MAX
        }),
        old(frames).wf(),
    ensures
        ({
            let base = phys_addr - phys_addr % 4096;
            let total = ((phys_addr + size + 4095) / 4096) * 4096 - base;
            let start = kernel_page_start(*old(pages), total);
            let fs = contiguous_seq(base, total);
            &&& final(pages).free_opt() == kernel_free_after(*old(pages), total)
            &&& final(frames).memory_map@ == old(frames).memory_map@
            &&& final(frames).next == old(frames).next
            &&& final(frames).free_opt() == old(frames).free_opt()
            &&& r matches Ok((v, v0, maps)) && v == start + phys_addr % 4096 && v0@ == fs
                && maps@ == page_mappings(start, fs.take(min_len(page_count(start, total), fs.len() as int)), KERNEL_PAGE_FLAGS)
        }),
{
    let (base, total, offset) = mmio_window(phys_addr, size);
    let (virt, fr, maps) = match kernel_allocate(total, MemoryAllocationType::MMIO(base), pages, frames) {
        Ok(t) => t,
        Err(e) => return Err(e),
    };
    Ok((virt + offset, fr, maps))
}

/// A page to copy for a forked child: from the parent's frame to the
/// child's.
#[derive(Debug, Clone, Copy, PartialEq, Eq, Structural)]
pub struct PageCopy {
    pub from: u64,
    pub to: u64,
}

/// The shadow map `m` with each of `pages` entered under its new frame.
pub open spec fn entered_pages(m: Map<u64, u64>, pages: Seq<PageVirtPhys>, frames: Seq<u64>) -> Map<u64, u64>
    decreases pages.len(),
{
    if pages.len() == 0 {
        m
    } else {
        entered_pages(m, pages.drop_last(), frames).insert(pages.last().virt_start, frames[pages.len() - 1])
    }
}

/// The address space of a forked child, whose top-level table is at
/// `child_p4`, given the user pages of the parent (`pages`) and one fresh
/// frame for each (`frames`): the parent's free ranges, each page entered
/// under its frame, the mappings to make (user readable and writable) and
/// the copies to make from the parent's frames, page by page.
pub fn fork_copy_plan(parent: &AddressSpace, child_p4: u64, pages: &Vec<PageVirtPhys>, frames: &Vec<u64>)
    -> (r: (AddressSpace, Vec<PageMapping>, Vec<PageCopy>))
    requires
        frames@.len() == pages@.len(),
    ensures
        r.0.pt4 == child_p4,
        r.0.free_regions@ == parent.free_regions@,
        r.0.mapped_regions@ == entered_pages(Map::empty(), pages@, frames@),
        r.1@ == Seq::new(pages@.len(), |k: int| PageMapping {
            page: pages@[k].virt_start,
            frame: frames@[k],
            flags: USER_PAGE_FLAGS,
        }),
        r.2@ == Seq::new(pages@.len(), |k: int| PageCopy { from: pages@[k].phys_start, to: frames@[k] }),
{
    let mut free_regions: Vec<MemoryRegion> = Vec::new();
    let mut i: usize = 0;
    while i < parent.free_regions.len()
        invariant
            i <= parent.free_regions@.len(),
            free_regions@ == parent.free_regions@.take(i as int),
        decreases parent.free_regions@.len() - i,
    {
        free_regions.push(parent.free_regions[i]);
        assert(parent.free_regions@.take(i + 1) =~= parent.free_regions@.take(i as int).push(parent.free_regions@[i as int]));
        i = i + 1;
    }
    assert(parent.free_regions@.take(i as int) =~= parent.free_regions@);
    let mut mapped: BTreeMap<u64, u64> = BTreeMap::new();
    let mut maps: Vec<PageMapping> = Vec::new();
    let mut copies: Vec<PageCopy> = Vec::new();
    let mut k: usize = 0;
    while k < pages.len()
        invariant
            k <= pages@.len(),
            frames@.len() == pages@.len(),
            mapped@ == entered_pages(Map::empty(), pages@.take(k as int), frames@),
            maps@ == Seq::new(k as nat, |j: int| PageMapping {
                page: pages@[j].virt_start,
                frame: frames@[j],
                flags: USER_PAGE_FLAGS,
            }),
            copies@ == Seq::new(k as nat, |j: int| PageCopy { from: pages@[j].phys_start, to: frames@[j] }),
        decreases pages@.len() - k,
    {
        let p = pages[k];
        let f = frames[k];
        mapped.insert(p.virt_start, f);
        maps.push(PageMapping { page: p.virt_start, frame: f, flags: USER_PAGE_FLAGS });
        copies.push(PageCopy { from: p.phys_start, to: f });
        proof {
            let t = pages@.take(k + 1);
            assert(t.drop_last() =~= pages@.take(k as int));
            assert(t.last() == pages@[k as int]);
        }
        assert(maps@ =~= Seq::new((k + 1) as nat, |j: int| PageMapping {
            page: pages@[j].virt_start,
            frame: frames@[j],
            flags: USER_PAGE_FLAGS,
        }));
        assert(copies@ =~= Seq::new((k + 1) as nat, |j: int| PageCopy { from: pages@[j].phys_start, to: frames@[j] }));
        k = k + 1;
    }
    assert(pages@.take(k as int) =~= pages@);
    (AddressSpace { pt4: child_p4, free_regions, mapped_regions: mapped }, maps, copies)
}
} // verus!
