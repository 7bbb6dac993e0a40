use venix::console::{console_write, register_keypress, winsize_bytes, ConsoleDevice, Termios};
use venix::dma::arena::{Arena, ArenaTag};
use venix::dma::buffer::DmaBuffer;
use venix::sys::syscall::{CanonicalError, PollEvents};
use venix::sys::acpi::tables::{PhysicalMapping, SyncAcpiTables, VenixAcpiHandler};
use venix::utils::__IncompleteArrayField;

#[test]
fn arena_places_one_after_another() {
    let mut a = Arena::new(0xFFFF_8000_0010_0000, 0x20_0000);
    // no alignment: at the start
    assert_eq!(a.get_place(0, 16), Some((ArenaTag(0), 0xFFFF_8000_0010_0000, 0x20_0000)));
    assert_eq!(a.next_free_store_spot, 16);
    // aligned to 16 from 16: a full step, to 32
    assert_eq!(a.get_place(16, 8), Some((ArenaTag(32), 0xFFFF_8000_0010_0020, 0x20_0020)));
    assert_eq!(a.next_free_store_spot, 40);
    // past the page: refused, but the offset still moves
    assert_eq!(a.get_place(0, 4096), None);
    assert_eq!(a.next_free_store_spot, 40 + 4096);
    assert_eq!(a.tag_to_virt(ArenaTag(32)), 0xFFFF_8000_0010_0020);
}

#[test]
fn arena_alignment_rounds_up() {
    let mut a = Arena::new(0x1000, 0x2000);
    assert_eq!(a.get_place(0, 3), Some((ArenaTag(0), 0x1000, 0x2000)));
    assert_eq!(a.get_place(64, 10), Some((ArenaTag(64), 0x1040, 0x2040)));
}

#[test]
fn dma_buffer_cache_lines() {
    let b = DmaBuffer::new(0x1000, 130);
    assert_eq!(b.cache_lines(), vec![0x1000, 0x1040, 0x1080]);
    assert_eq!(DmaBuffer::new(0x1000, 0).cache_lines(), Vec::<u64>::new());
    assert_eq!(DmaBuffer::new(0x1000, 64).cache_lines(), vec![0x1000]);
    // A buffer that does not start on a line also covers the line of its last byte.
    assert_eq!(DmaBuffer::new(60, 8).cache_lines(), vec![0, 64]);
    assert_eq!(DmaBuffer::new(0x1030, 0x40).cache_lines(), vec![0x1000, 0x1040]);
}

fn termios_bytes(iflag: u32, lflag: u32) -> Vec<u8> {
    let mut v = Vec::new();
    for w in [iflag, 0, 0, lflag] {
        v.extend_from_slice(&w.to_le_bytes());
    }
    for i in 0..11u32 {
        v.extend_from_slice(&(i + 1).to_le_bytes());
    }
    v.extend_from_slice(&9600u32.to_le_bytes());
    v.extend_from_slice(&19200u32.to_le_bytes());
    v
}

#[test]
fn termios_parsed_from_bytes() {
    let t = Termios::from_bytes(&termios_bytes(0x22, 0x11));
    assert_eq!(t.iflag, 0x22);
    assert_eq!(t.lflag, 0x11);
    assert_eq!(t.cc, vec![1, 2, 3, 4, 5, 6, 7, 8, 9, 10, 11]);
    assert_eq!(t.ibaud, 9600);
    assert_eq!(t.obaud, 19200);
}

#[test]
fn canonical_read_waits_for_a_line() {
    let mut c = ConsoleDevice::new();
    assert!(register_keypress(&mut c, 'h'));
    assert!(c.register_key('i'));
    assert_eq!(c.read(100), None);
    assert_eq!(c.poll(PollEvents { bits: 0x01 }), None);
    c.register_key('\r');
    c.register_key('x');
    assert_eq!(c.poll(PollEvents { bits: 0x03 }), Some(PollEvents { bits: 0x03 }));
    assert_eq!(c.read(100), Some(vec![b'h', b'i', b'\r']));
    // the rest waits for its line
    assert_eq!(c.read(100), None);
}

#[test]
fn canonical_read_takes_at_most_len() {
    let mut c = ConsoleDevice::new();
    for k in ['a', 'b', 'c', '\r'] {
        c.register_key(k);
    }
    assert_eq!(c.read(2), Some(vec![b'a', b'b']));
    assert_eq!(c.read(10), Some(vec![b'c', b'\r']));
}

#[test]
fn raw_mode_with_translation() {
    let mut c = ConsoleDevice::new();
    // carriage return to newline, no canonical mode, no echo
    c.set_termios(&Termios::from_bytes(&termios_bytes(0x02, 0x00)));
    assert!(!c.canonical);
    assert!(!c.register_key('\r'));
    c.register_key('\n');
    c.register_key('q');
    assert_eq!(c.read(1), Some(vec![b'\n', b'\n', b'q']));
    assert_eq!(c.read(1), None);
    // newline to carriage return
    c.set_termios(&Termios::from_bytes(&termios_bytes(0x20, 0x00)));
    c.register_key('\n');
    assert_eq!(c.read(1), Some(vec![b'\r']));
}

#[test]
fn poll_for_writing_only() {
    let c = ConsoleDevice::new();
    assert_eq!(c.poll(PollEvents { bits: 0x02 }), Some(PollEvents { bits: 0x02 }));
    assert_eq!(c.poll(PollEvents { bits: 0x00 }), Some(PollEvents { bits: 0x00 }));
}

#[test]
fn process_group_and_window_size() {
    let mut c = ConsoleDevice::new();
    assert_eq!(c.get_pgrp(), 0);
    c.set_pgrp(42);
    assert_eq!(c.get_pgrp(), 42);
    c.set_pgrp(-1);
    assert_eq!(c.get_pgrp(), 0xFFFF_FFFF_FFFF_FFFF);
    assert_eq!(winsize_bytes(25, 80), vec![25, 80, 0, 0]);
}

#[test]
fn console_write_needs_utf8() {
    assert_eq!(console_write(b"hello".to_vec()), Ok((String::from("hello"), 5)));
    assert_eq!(console_write(vec![0xFF, 0xFE]), Err(CanonicalError::Inval));
}

#[test]
fn acpi_regions_through_the_direct_map() {
    let h = VenixAcpiHandler { hhdm_offset: 0xFFFF_8000_0000_0000 };
    assert_eq!(h.map_physical_region(0xE_0000, 36), PhysicalMapping {
        physical_start: 0xE_0000,
        virtual_start: 0xFFFF_8000_000E_0000,
        region_length: 36,
        mapped_length: 36,
    });
    let t = SyncAcpiTables::new(7u32);
    assert_eq!(*t.tables(), 7);
}

#[test]
fn incomplete_array_field_is_a_marker() {
    let _f: __IncompleteArrayField<u32> = __IncompleteArrayField::new();
    assert_eq!(std::mem::size_of::<__IncompleteArrayField<u64>>(), 0);
}

#[test]
fn arena_place_past_the_page_refused() {
    let mut a = Arena::new(0x1000, 0x2000);
    assert_eq!(a.get_place(0, 5), Some((ArenaTag(0), 0x1000, 0x2000)));
    assert_eq!(a.get_place(usize::MAX - 3, 1), None);
    assert_eq!(a.next_free_store_spot, usize::MAX - 2);
}

#[test]
fn keypress_keeps_the_terminal_settings() {
    let mut c = ConsoleDevice::new();
    c.set_pgrp(7);
    let (canonical, crnl, nlcr, echo) = (c.canonical, c.crnl, c.nlcr, c.local_loopback);
    assert_eq!(register_keypress(&mut c, 'z'), echo);
    assert_eq!(c.get_pgrp(), 7);
    assert_eq!((c.canonical, c.crnl, c.nlcr, c.local_loopback), (canonical, crnl, nlcr, echo));
}

#[test]
fn arena_places_never_overlap() {
    let mut a = Arena::new(0x1000, 0x2000);
    let mut ends = Vec::new();
    for (alignment, length) in [(0usize, 10usize), (16, 3), (0, 1), (64, 100), (8, 8)] {
        let start = a.next_free_store_spot;
        let (tag, _, _) = a.get_place(alignment, length).unwrap();
        assert!(tag.0 >= start);
        assert!(ends.iter().all(|e| *e <= tag.0));
        ends.push(tag.0 + length);
    }
}
