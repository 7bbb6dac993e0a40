use venix::drivers::pcie::InterruptPin;
use venix::interrupts::InterruptRoute;
use venix::sys::acpi::acpi_lock::{Mutex, Semaphore};
use venix::sys::acpi::eisa_id_to_string;
use venix::sys::acpi::interrupts::{
    acpi_madt_interrupt_source_override, acpi_madt_ioapic, iterate_madt_ioapics, Polarity, TriggerMode,
};
use venix::sys::acpi::namespace::{
    decode_routing_function, lookup_route, routing_target, should_enumerate, PciInterruptFunction,
    SystemBusDeviceIdentifier,
};
use venix::sys::acpi::resources::{first_fixed_memory, first_irq, Resource};
use venix::sys::block::{is_protective_mbr, parse_partition_table_header, register_block_device, GptDevice};
use venix::sys::syscall::CanonicalError;
use venix::sys::vfs::{get_mount_point, mount, FileDescriptor, ReadAction, SeekError, WriteAction};

#[test]
fn eisa_identifiers() {
    assert_eq!(eisa_id_to_string(0x030A_D041), "PNP0A03");
    assert_eq!(eisa_id_to_string(0x0301_D041), "PNP0103");
    assert_eq!(eisa_id_to_string(0x0000_0000), "@@@0000");
}

#[test]
fn semaphore_signal_then_wait() {
    let mut s = Semaphore::new();
    s.signal();
    s.signal();
    assert_eq!(s.state, 2);
    assert!(s.wait_for_event(None));
    assert_eq!(s.state, 1);
    s.reset();
    assert_eq!(s.state, 0);
    let mut m = Mutex::new();
    m.lock();
    assert_eq!(m.state, 1);
    m.unlock();
    assert_eq!(m.state, 0);
}

fn madt() -> Vec<u8> {
    let mut t = vec![0u8; 44];
    // I/O APIC: id 2, address 0xFEC00000, GSI base 0
    t.extend_from_slice(&[1, 12, 2, 0]);
    t.extend_from_slice(&0xFEC0_0000u32.to_le_bytes());
    t.extend_from_slice(&0u32.to_le_bytes());
    // a local APIC entry, skipped
    t.extend_from_slice(&[0, 8, 0, 0, 1, 0, 0, 0]);
    // override: ISA IRQ 0 on GSI 2, active low, level
    t.extend_from_slice(&[2, 10, 0, 0]);
    t.extend_from_slice(&2u32.to_le_bytes());
    t.extend_from_slice(&0x000Fu16.to_le_bytes());
    // override: IRQ 9 on GSI 9, conforming
    t.extend_from_slice(&[2, 10, 0, 9]);
    t.extend_from_slice(&9u32.to_le_bytes());
    t.extend_from_slice(&0u16.to_le_bytes());
    // an entry running past the end stops the walk
    t.extend_from_slice(&[1, 12, 3]);
    t
}

#[test]
fn madt_entries_collected() {
    let d = iterate_madt_ioapics(&madt());
    assert_eq!(d.io_apics, vec![acpi_madt_ioapic { id: 2, address: 0xFEC0_0000, gsi_base: 0 }]);
    assert_eq!(d.isos, vec![
        acpi_madt_interrupt_source_override { bus: 0, source: 0, gsi: 2, flags: 0x0F },
        acpi_madt_interrupt_source_override { bus: 0, source: 9, gsi: 9, flags: 0 },
    ]);
    assert_eq!(d.isos[0].polarity(), Some(Polarity::ActiveLow));
    assert_eq!(d.isos[0].trigger_mode(), Some(TriggerMode::Level));
    assert_eq!(d.isos[1].polarity(), Some(Polarity::Conforming));
    let odd = acpi_madt_interrupt_source_override { bus: 0, source: 1, gsi: 1, flags: 0b1001 };
    assert_eq!(odd.polarity(), Some(Polarity::ActiveHigh));
    assert_eq!(odd.trigger_mode(), None);
}

#[test]
fn reserved_polarity_and_trigger() {
    let o = acpi_madt_interrupt_source_override { bus: 0, source: 1, gsi: 1, flags: 0b1010 };
    assert_eq!(o.polarity(), None);
    assert_eq!(o.trigger_mode(), None);
    let e = acpi_madt_interrupt_source_override { bus: 0, source: 1, gsi: 1, flags: 0b0101 };
    assert_eq!(e.trigger_mode(), Some(TriggerMode::Edge));
}

#[test]
fn namespace_devices_and_routes() {
    let link = SystemBusDeviceIdentifier { namespace: 1, hid: None, uid: None, path: String::from("\\_SB.LNKA") };
    assert!(!should_enumerate(&link));
    let dev = SystemBusDeviceIdentifier {
        namespace: 2, hid: Some(String::from("PNP0103")), uid: None, path: String::from("\\_SB.HPET"),
    };
    assert!(should_enumerate(&dev));
    let copy = dev.duplicate();
    assert_eq!(copy.hid, dev.hid);
    assert_eq!(copy.path, dev.path);

    let all = decode_routing_function(0x0003_FFFF, 1);
    assert_eq!(all.device, 3);
    assert_eq!(all.function, None);
    assert_eq!(all.pin, InterruptPin::IntB);
    let one = decode_routing_function(0x0001_0002, 3);
    assert_eq!((one.device, one.function, one.pin), (1, Some(2), InterruptPin::IntD));

    assert_eq!(routing_target(20, None), Some(InterruptRoute::Gsi(20)));
    assert_eq!(routing_target(0, Some(11)), Some(InterruptRoute::Irq(11)));

    let table = vec![
        (decode_routing_function(0x0003_FFFF, 1), InterruptRoute::Gsi(17)),
        (decode_routing_function(0x0001_0002, 3), InterruptRoute::Irq(10)),
    ];
    let q = PciInterruptFunction { device: 3, function: Some(5), pin: InterruptPin::IntB };
    assert_eq!(lookup_route(&table, &q), Some(InterruptRoute::Gsi(17)));
    let q2 = PciInterruptFunction { device: 1, function: Some(3), pin: InterruptPin::IntD };
    assert_eq!(lookup_route(&table, &q2), None);
    assert!(q == PciInterruptFunction { device: 3, function: None, pin: InterruptPin::IntB });
}

#[test]
fn resources_picked_first() {
    let rs = vec![
        Resource::Irq { triggering: 1, polarity: 0, sharing: false, wake_capability: false, irqs: vec![8, 9] },
        Resource::FixedMemory32 { write_status: 1, address: 0xFED0_0000, length: 0x400 },
        Resource::FixedMemory32 { write_status: 1, address: 0xFEE0_0000, length: 0x100 },
    ];
    assert_eq!(first_fixed_memory(&rs), Some((0xFED0_0000, 0x400)));
    assert_eq!(first_irq(&rs), Some(8));
    assert_eq!(first_fixed_memory(&Vec::new()), None);
}

fn gpt_header(array_bytes: u32) -> Vec<u8> {
    let mut h = vec![0u8; 512];
    h[0..8].copy_from_slice(b"EFI PART");
    h[84..88].copy_from_slice(&array_bytes.to_le_bytes());
    h
}

#[test]
fn partition_tables() {
    let mut mbr = vec![0u8; 512];
    assert!(!is_protective_mbr(&mbr));
    mbr[0x1C2] = 0xEE;
    assert!(is_protective_mbr(&mbr));
    let l = parse_partition_table_header(&gpt_header(128)).unwrap();
    assert_eq!((l.sectors, l.entries), (1, 1));
    let l = parse_partition_table_header(&gpt_header(512)).unwrap();
    assert_eq!((l.sectors, l.entries), (2, 4));
    let mut bad = gpt_header(128);
    bad[0] = b'X';
    assert!(parse_partition_table_header(&bad).is_none());
}

#[test]
fn partitions_bound_reads() {
    let mut pt = vec![0u8; 256];
    pt[32..40].copy_from_slice(&2048u64.to_le_bytes());
    pt[40..48].copy_from_slice(&4096u64.to_le_bytes());
    pt[128 + 32..128 + 40].copy_from_slice(&8192u64.to_le_bytes());
    pt[128 + 40..128 + 48].copy_from_slice(&9000u64.to_le_bytes());
    let dev = GptDevice::new(7, &pt, 2);
    assert_eq!(dev.pt[1].starting_lba, 8192);
    assert_eq!(dev.read(0, 10, 4), Ok(2058));
    assert_eq!(dev.read(0, 2047, 1), Err(()));
    assert_eq!(dev.read(0, 2048, 1), Err(()));
    assert_eq!(dev.read(2, 0, 1), Err(()));
    let mut devices = Vec::new();
    let mut mbr = vec![0u8; 512];
    let header = gpt_header(256);
    // Without a protective MBR, or without the header's signature, nothing is added.
    assert!(!register_block_device(&mut devices, 7, &mbr, &header, &pt));
    mbr[0x1C2] = 0xEE;
    let mut unsigned = header.clone();
    unsigned[7] = 0;
    assert!(!register_block_device(&mut devices, 7, &mbr, &unsigned, &pt));
    assert!(devices.is_empty());
    assert!(register_block_device(&mut devices, 7, &mbr, &header, &pt));
    assert_eq!(devices.len(), 1);
    assert_eq!(devices[0].dev, 7);
    assert_eq!(devices[0].pt, dev.pt);
}

#[test]
fn pipe_written_then_read() {
    let mut p = FileDescriptor::new_pipe();
    assert!(matches!(p.write(&b"hello world".to_vec(), 5), WriteAction::Done(5)));
    match p.read(3) {
        ReadAction::Pipe(v) => assert_eq!(v, b"hel".to_vec()),
        _ => panic!("a pipe reads from its buffer"),
    }
    match p.read(10) {
        ReadAction::Pipe(v) => assert_eq!(v, b"lo".to_vec()),
        _ => panic!("a pipe reads from its buffer"),
    }
    assert_eq!(p.seek(0, 1, Some(10)), Err(SeekError::NotSeekable));
}

#[test]
fn files_read_and_seek() {
    let mut f = FileDescriptor::File {
        file_name: String::from("/bin/sh"),
        current_offset: 0,
        file_system: 3,
        local_name: String::from("sh"),
    };
    match f.read(100) {
        ReadAction::File { file_system, local_name, offset, len } => {
            assert_eq!((file_system, local_name.as_str(), offset, len), (3, "sh", 0, 100));
        },
        _ => panic!("a file is read through its file system"),
    }
    assert_eq!(f.seek(0, 3, Some(1000)), Ok(0));
    assert_eq!(f.seek(10, 1, Some(1000)), Ok(10));
    assert_eq!(f.seek(0xFFFF_FFFF_FFFF_FFFB, 2, Some(1000)), Ok(995));
    assert_eq!(f.seek(1000, 3, Some(1000)), Err(SeekError::InvalidSize));
    assert_eq!(f.seek(0xFFFF_FFFF_FFFF_FC18, 1, Some(1000)), Err(SeekError::InvalidSize));
    assert_eq!(f.seek(0xFFFF_FFFF_FFFF_FFF0, 1, Some(1000)), Ok(979));
    assert_eq!(f.seek(16, 1, Some(1000)), Ok(995));
    assert_eq!(f.seek(5, 3, None), Ok(0));
    assert_eq!(f.seek(5, 9, Some(1000)), Ok(995));
}

#[test]
fn longest_mount_point_wins() {
    let mut table = Vec::new();
    mount(&mut table, String::from("/"), 1);
    mount(&mut table, String::from("/dev"), 2);
    assert_eq!(get_mount_point(&table, &String::from("/dev/console")), Ok((2, String::from("/console"))));
    assert_eq!(get_mount_point(&table, &String::from("/bin/sh")), Ok((1, String::from("bin/sh"))));
    mount(&mut table, String::from("/dev"), 5);
    assert_eq!(table.len(), 2);
    assert_eq!(get_mount_point(&table, &String::from("/dev/tty")), Ok((5, String::from("/tty"))));
    assert_eq!(get_mount_point(&Vec::new(), &String::from("/x")), Err(CanonicalError::NoEnt));
}

#[test]
fn signals_let_as_many_waits_through() {
    let mut s = Semaphore::new();
    for _ in 0..3 {
        s.signal();
    }
    for _ in 0..3 {
        assert!(s.wait_for_event(Some(10)));
    }
    assert_eq!(s.state, 0);
}
