use std::collections::BTreeMap;
use venix::memory::frame_allocator::{MemoryEntryType, MemoryMapEntry, VenixFrameAllocator};
use venix::memory::page_allocator::{PageTableEntryInfo, VenixPageAllocator};
use venix::memory::user_address_space::{user_pages_mapped, AddressSpace, PageVirtPhys, RegionInUse};
use venix::memory::{
    contiguous_frames, gather_from_window, get_ptr_in_hhdm, get_usable_ram, mmio_window, scatter_into_window,
    string_copy_step, user_pages, CopyError, MemoryRegion, StringCopyStep,
};
use venix::memory::{
    allocate_mmio, fork_copy_plan, kernel_allocate, user_allocate, PageCopy, AllocError, MemoryAccessRestriction, MemoryAllocationType,
    PageMapping, KERNEL_PAGE_FLAGS, USER_PAGE_FLAGS,
};

fn entry(base: u64, length: u64, entry_type: MemoryEntryType) -> MemoryMapEntry {
    MemoryMapEntry { base, length, entry_type }
}

fn small_map() -> Vec<MemoryMapEntry> {
    vec![
        entry(0x1000, 0x2000, MemoryEntryType::Usable),
        entry(0x3000, 0x1000, MemoryEntryType::Reserved),
        entry(0x10_0000, 0x3000, MemoryEntryType::Usable),
    ]
}

fn region(start: u64, end: u64) -> MemoryRegion {
    MemoryRegion { start, end }
}

#[test]
fn runt_mode_hands_out_frames_in_map_order() {
    let mut a = VenixFrameAllocator::new(small_map());
    assert_eq!(a.get_usable_memory(), 0x5000);
    assert_eq!(get_usable_ram(&Some(VenixFrameAllocator::new(small_map()))), 0x5000);
    assert_eq!(a.allocate_frame(), Some(0x10_0000));
    assert_eq!(a.allocate_frame(), Some(0x10_1000));
    assert_eq!(a.allocate_frame(), Some(0x10_2000));
    assert_eq!(a.allocate_frame(), Some(0x1000));
    assert_eq!(a.allocate_frame(), Some(0x2000));
    assert_eq!(a.allocate_frame(), None);
}

#[test]
fn full_mode_takes_and_merges_frames() {
    let mut a = VenixFrameAllocator::new(small_map());
    a.allocate_frame();
    a.allocate_frame();
    a.move_to_full_mode();
    assert_eq!(a.free_regions, Some(vec![region(0x1000, 0x3000), region(0x10_0000, 0x10_1000)]));
    assert_eq!(a.allocate_frame(), Some(0x10_0000));
    assert_eq!(a.free_regions, Some(vec![region(0x1000, 0x3000)]));
    a.deallocate_frame(0x10_0000);
    assert_eq!(a.free_regions, Some(vec![region(0x1000, 0x3000), region(0x10_0000, 0x10_1000)]));
    a.deallocate_frame(0x4000);
    assert_eq!(a.free_regions,
        Some(vec![region(0x1000, 0x3000), region(0x4000, 0x5000), region(0x10_0000, 0x10_1000)]));
    a.deallocate_frame(0x5000);
    assert_eq!(a.free_regions,
        Some(vec![region(0x1000, 0x3000), region(0x4000, 0x6000), region(0x10_0000, 0x10_1000)]));
    assert_eq!(a.allocate_dma_frames(0x2000), Some(0x1000));
    assert_eq!(a.free_regions, Some(vec![region(0x4000, 0x6000), region(0x10_0000, 0x10_1000)]));
}

#[test]
fn frame_allocated_then_freed_covers_the_same_memory() {
    let mut a = VenixFrameAllocator::new(vec![entry(0x8000, 0x3000, MemoryEntryType::Usable)]);
    a.move_to_full_mode();
    let before = a.free_regions.clone();
    let f = a.allocate_frame().unwrap();
    assert_eq!(f, 0xA000);
    a.deallocate_frame(f);
    assert_eq!(a.free_regions, before);
}

#[test]
fn dma_frames_need_room_below_four_gib() {
    let mut a = VenixFrameAllocator::new(vec![entry(0xFFFF_F000, 0x2000, MemoryEntryType::Usable)]);
    assert_eq!(a.allocate_dma_frames(0x1000), None); // runt mode
    a.move_to_full_mode();
    assert_eq!(a.allocate_dma_frames(0x1000), None);
    assert_eq!(a.free_regions, Some(vec![region(0xFFFF_F000, 0x1_0000_1000)]));
}

fn not_present() -> PageTableEntryInfo {
    PageTableEntryInfo { present: false, huge: false, addr: 0 }
}

#[test]
fn page_allocator_runt_and_full_mode() {
    let mut unused = vec![false; 512];
    unused[260] = true;
    let mut p = VenixPageAllocator::new(&unused, 0xFFFF_8000_0000_0000);
    assert_eq!(p.p4_first_completely_free, 0xFFFF_8200_0000_0000);
    assert_eq!(p.get_page_range(0x5000), 0xFFFF_8200_0000_0000);

    let hhdm = 0xFFFF_8000_0000_0000u64;
    let mut p4 = vec![not_present(); 258];
    p4[256] = PageTableEntryInfo { present: true, huge: false, addr: 0x5000 };
    p4[0] = PageTableEntryInfo { present: true, huge: false, addr: 0x6000 };
    let p3 = vec![PageTableEntryInfo { present: true, huge: true, addr: 0x7000 }, not_present()];
    let mut tables = BTreeMap::new();
    tables.insert(hhdm + 0x1000, p4);
    tables.insert(hhdm + 0x5000, p3);
    let expected = vec![
        region(0x8080_0000_0000, 0x8100_0000_0000),
        region(0x8000_4000_0000, 0x8000_8000_0000),
    ];
    assert_eq!(p.gather_unused_regions_from_page(4, 0, hhdm + 0x1000, &tables), expected);
    p.move_to_full_mode(hhdm + 0x1000, &tables);
    assert_eq!(p.free_regions, Some(expected));
    assert_eq!(p.get_page_range(0x1000), 0xFFFF_8080_0000_0000);
    assert_eq!(p.free_regions.as_ref().unwrap()[0], region(0x8080_0000_1000, 0x8100_0000_0000));
}

#[test]
fn walk_of_user_page_tables() {
    let hhdm = 0x1000_0000u64;
    let mut p4 = vec![not_present(); 257];
    p4[0] = PageTableEntryInfo { present: true, huge: false, addr: 0x2000 };
    p4[256] = PageTableEntryInfo { present: true, huge: false, addr: 0x9000 };
    let p3 = vec![not_present(), PageTableEntryInfo { present: true, huge: false, addr: 0x3000 }];
    let p2 = vec![not_present(), not_present(), PageTableEntryInfo { present: true, huge: false, addr: 0x4000 }];
    let p1 = vec![not_present(), PageTableEntryInfo { present: true, huge: false, addr: 0xABC000 }];
    let mut tables = BTreeMap::new();
    tables.insert(hhdm + 0x1000, p4);
    tables.insert(hhdm + 0x2000, p3);
    tables.insert(hhdm + 0x3000, p2);
    tables.insert(hhdm + 0x4000, p1);
    assert_eq!(user_pages_mapped(4, 0, hhdm + 0x1000, hhdm, &tables),
        vec![PageVirtPhys { virt_start: 0x4040_1000, phys_start: 0xABC000 }]);
}

#[test]
fn user_address_space_ranges() {
    let mut s = AddressSpace::new(0x1234_5000);
    assert_eq!(s.get_pt4(), 0x1234_5000);
    assert_eq!(s.get_page_range(0x2001), 0x10_0000);
    assert_eq!(s.free_regions, vec![region(0x10_3000, 0x7F80_0000_0000)]);
    assert_eq!(s.mapped_regions.len(), 3);
    assert_eq!(s.get_page_range_from_start(0x20_0800, 0x1000), Ok(()));
    assert_eq!(s.free_regions,
        vec![region(0x10_3000, 0x20_0000), region(0x20_2000, 0x7F80_0000_0000)]);
    assert_eq!(s.get_page_range_from_start(0x20_0000, 0x1000), Err(RegionInUse { addr: 0x20_0000 }));
    s.assign_virt_phys(0x20_0000, 0x7000);
    assert_eq!(s.mapped_regions.get(&0x20_0000), Some(&0x7000));
    s.assign_virt_phys(0x90_0000, 0x8000);
    assert_eq!(s.mapped_regions.get(&0x90_0000), None);
    s.clear_user_space();
    assert_eq!(s.free_regions, vec![region(0x10_0000, 0x7F80_0000_0000)]);
    assert!(s.mapped_regions.is_empty());
}

#[test]
fn user_copies_find_their_frames() {
    let mut m = BTreeMap::new();
    m.insert(0x10_0000u64, 0xA000u64);
    m.insert(0x10_1000u64, 0xB000u64);
    assert_eq!(user_pages(&m, 0x10_0FF0, 0x20), Ok(vec![0xA000, 0xB000]));
    assert_eq!(user_pages(&m, 0x10_1FF0, 0x20), Err(CopyError::Fault));
    let window: Vec<u8> = (0..8192u32).map(|i| (i % 251) as u8).collect();
    assert_eq!(gather_from_window(&window, 4094, 4), window[4094..4098].to_vec());
    let mut w = vec![0u8; 8192];
    scatter_into_window(&mut w, 4095, &vec![7, 8]);
    assert_eq!(&w[4094..4098], &[0, 7, 8, 0]);
}

#[test]
fn strings_copied_page_by_page() {
    let mut collected = Vec::new();
    assert_eq!(string_copy_step(&mut collected, &b"ab".to_vec()), StringCopyStep::Continue);
    assert_eq!(string_copy_step(&mut collected, &b"c\0d".to_vec()), StringCopyStep::Done);
    assert_eq!(collected, b"abc".to_vec());
    let mut big = vec![1u8; 1024 * 1024];
    assert_eq!(string_copy_step(&mut big, &vec![1u8]), StringCopyStep::TooLong);
}

#[test]
fn mmio_windows_and_frames() {
    assert_eq!(mmio_window(0xFEC0_0010, 0x20), (0xFEC0_0000, 0x1000, 0x10));
    assert_eq!(mmio_window(0xFED0_0FF0, 0x20), (0xFED0_0000, 0x2000, 0xFF0));
    assert_eq!(contiguous_frames(0x1000, 0x2001), vec![0x1000, 0x2000, 0x3000]);
    assert_eq!(get_ptr_in_hhdm(0xFFFF_8000_0000_0000, 0x1234), 0xFFFF_8000_0000_1234);
}

fn runt_page_allocator() -> VenixPageAllocator {
    let mut unused = vec![false; 512];
    unused[260] = true;
    VenixPageAllocator::new(&unused, 0xFFFF_8000_0000_0000)
}

#[test]
fn user_memory_gets_frames_and_mappings() {
    let mut space = AddressSpace::new(0x1234_5000);
    let mut frames = VenixFrameAllocator::new(small_map());
    let (start, fs, maps) = user_allocate(0x1001, MemoryAccessRestriction::User, &mut space, &mut frames).unwrap();
    assert_eq!(start, 0x10_0000);
    assert_eq!(fs, vec![0x10_0000, 0x10_1000]);
    assert_eq!(maps, vec![
        PageMapping { page: 0x10_0000, frame: 0x10_0000, flags: USER_PAGE_FLAGS },
        PageMapping { page: 0x10_1000, frame: 0x10_1000, flags: USER_PAGE_FLAGS },
    ]);
    assert_eq!(space.mapped_regions.get(&0x10_1000), Some(&0x10_1000));
    assert_eq!(space.free_regions, vec![region(0x10_2000, 0x7F80_0000_0000)]);
    assert_eq!(frames.next, 2);
}

#[test]
fn user_memory_from_a_given_start() {
    let mut space = AddressSpace::new(0x1234_5000);
    let mut frames = VenixFrameAllocator::new(small_map());
    let (start, fs, maps) =
        user_allocate(0x10, MemoryAccessRestriction::UserByStart(0x40_0ff8), &mut space, &mut frames).unwrap();
    // Sixteen bytes from 0x40_0ff8 touch two pages.
    assert_eq!(start, 0x40_0ff8);
    assert_eq!(fs.len(), 2);
    assert_eq!(maps[0].page, 0x40_0000);
    assert_eq!(maps[1].page, 0x40_1000);
    assert_eq!(space.mapped_regions.get(&0x40_0000), Some(&fs[0]));
}

#[test]
fn user_memory_without_frames_fails() {
    let mut space = AddressSpace::new(0x1234_5000);
    let mut frames = VenixFrameAllocator::new(small_map());
    assert_eq!(
        user_allocate(0x6000, MemoryAccessRestriction::User, &mut space, &mut frames),
        Err(AllocError::FrameAllocationFailed)
    );
    // The range stays reserved.
    assert_eq!(space.free_regions, vec![region(0x10_6000, 0x7F80_0000_0000)]);
}

#[test]
fn kernel_memory_of_each_type() {
    let mut pages = runt_page_allocator();
    let mut frames = VenixFrameAllocator::new(small_map());
    let (start, fs, maps) = kernel_allocate(0x2000, MemoryAllocationType::RAM, &mut pages, &mut frames).unwrap();
    assert_eq!(start, 0xFFFF_8200_0000_0000);
    assert_eq!(fs, vec![0x10_0000, 0x10_1000]);
    assert_eq!(maps[1], PageMapping { page: 0xFFFF_8200_0000_1000, frame: 0x10_1000, flags: KERNEL_PAGE_FLAGS });

    let (_, fs, maps) =
        kernel_allocate(0x1800, MemoryAllocationType::MMIO(0xFEC0_0000), &mut pages, &mut frames).unwrap();
    assert_eq!(fs, vec![0xFEC0_0000, 0xFEC0_1000]);
    assert_eq!(maps.len(), 2);

    let (_, fs, maps) =
        kernel_allocate(0x1000, MemoryAllocationType::USER_BUFFER(vec![0x5000, 0x9000]), &mut pages, &mut frames)
            .unwrap();
    // One page, two frames: only the first is mapped.
    assert_eq!(fs, vec![0x5000, 0x9000]);
    assert_eq!(maps, vec![PageMapping { page: 0xFFFF_8200_0000_0000, frame: 0x5000, flags: KERNEL_PAGE_FLAGS }]);

    // DMA frames come only from the full-mode free list.
    assert_eq!(
        kernel_allocate(0x1000, MemoryAllocationType::DMA, &mut pages, &mut frames),
        Err(AllocError::FrameAllocationFailed)
    );
    frames.move_to_full_mode();
    let (_, fs, _) = kernel_allocate(0x1000, MemoryAllocationType::DMA, &mut pages, &mut frames).unwrap();
    assert_eq!(fs, vec![0x1000]);
}

#[test]
fn kernel_memory_out_of_frames() {
    let mut pages = runt_page_allocator();
    let mut frames = VenixFrameAllocator::new(small_map());
    assert_eq!(
        kernel_allocate(0x6000, MemoryAllocationType::RAM, &mut pages, &mut frames),
        Err(AllocError::FrameAllocationFailed)
    );
}

#[test]
fn mmio_mapped_at_its_offset() {
    let mut pages = runt_page_allocator();
    let mut frames = VenixFrameAllocator::new(small_map());
    let (virt, fs, maps) = allocate_mmio(0xFEE0_0F00, 0x200, &mut pages, &mut frames).unwrap();
    assert_eq!(virt, 0xFFFF_8200_0000_0F00);
    assert_eq!(fs, vec![0xFEE0_0000, 0xFEE0_1000]);
    assert_eq!(maps.len(), 2);
    assert_eq!(frames.next, 0);
}

#[test]
fn allocated_frames_are_all_different() {
    fn all_different(v: &[u64]) -> bool {
        (0..v.len()).all(|i| (i + 1..v.len()).all(|j| v[i] != v[j]))
    }
    let mut runt = VenixFrameAllocator::new(small_map());
    let frames = runt.allocate_frames(5).unwrap();
    assert_eq!(frames, vec![0x10_0000, 0x10_1000, 0x10_2000, 0x1000, 0x2000]);
    assert!(all_different(&frames));
    assert_eq!(runt.allocate_frames(1), None);

    let mut full = VenixFrameAllocator::new(small_map());
    full.move_to_full_mode();
    let frames = full.allocate_frames(5).unwrap();
    assert_eq!(frames, vec![0x10_2000, 0x10_1000, 0x10_0000, 0x2000, 0x1000]);
    assert!(all_different(&frames));
    assert_eq!(full.allocate_frames(1), None);
}

#[test]
fn frames_taken_in_runt_mode_can_come_again_in_full_mode() {
    // Runt mode hands out the lowest frames of the last usable entry first,
    // while the switch to full mode drops the highest ones.
    let mut a = VenixFrameAllocator::new(small_map());
    assert_eq!(a.allocate_frames(4), Some(vec![0x10_0000, 0x10_1000, 0x10_2000, 0x1000]));
    a.move_to_full_mode();
    assert_eq!(a.allocate_frame(), Some(0x1000));
}

#[test]
fn allocated_user_memory_reaches_its_frames() {
    let mut space = AddressSpace::new(0x1234_5000);
    let mut frames = VenixFrameAllocator::new(small_map());
    let (start, fs, _) =
        user_allocate(0x1010, MemoryAccessRestriction::UserByStart(0x40_0ff0), &mut space, &mut frames).unwrap();
    // 0x1010 bytes from 0x40_0ff0 touch two pages.
    assert_eq!(fs.len(), 2);
    assert_eq!(user_pages(&space.mapped_regions, start, 0x1010), Ok(fs.clone()));
    assert_eq!(user_pages(&space.mapped_regions, start + 0x20, 0x10), Ok(vec![fs[1]]));
}

#[test]
fn forked_pages_copied_to_fresh_frames() {
    let mut parent = AddressSpace::new(0x1000);
    parent.mapped_regions.insert(0x40_0000, 0x9000);
    parent.mapped_regions.insert(0x40_1000, 0xA000);
    let pages = vec![
        PageVirtPhys { virt_start: 0x40_0000, phys_start: 0x9000 },
        PageVirtPhys { virt_start: 0x40_1000, phys_start: 0xA000 },
    ];
    let (child, maps, copies) = fork_copy_plan(&parent, 0x2000, &pages, &vec![0x20_0000, 0x30_0000]);
    assert_eq!(child.pt4, 0x2000);
    assert_eq!(child.free_regions, parent.free_regions);
    assert_eq!(child.mapped_regions.get(&0x40_0000), Some(&0x20_0000));
    assert_eq!(child.mapped_regions.get(&0x40_1000), Some(&0x30_0000));
    assert_eq!(maps, vec![
        PageMapping { page: 0x40_0000, frame: 0x20_0000, flags: USER_PAGE_FLAGS },
        PageMapping { page: 0x40_1000, frame: 0x30_0000, flags: USER_PAGE_FLAGS },
    ]);
    assert_eq!(copies, vec![PageCopy { from: 0x9000, to: 0x20_0000 }, PageCopy { from: 0xA000, to: 0x30_0000 }]);
}
