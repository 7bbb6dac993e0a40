use venix::drivers::ide::ide::parse_identify;
use venix::drivers::ide::{ControllerError, IdeDriver};
use venix::driver::{configure_drivers, enumerate_device, register_devfs, DevFS, DeviceInfo, DriverKind, DriverTable};
use venix::drivers::hpet::{Hpet, TimerCallback, TimerProgram};
use venix::drivers::pcie::{InterruptPin, PciAddress, PciBus, PciConfigAccess, PciDeviceType, PciFunctionConfig};
use venix::interrupts::InterruptRoute;
use venix::sys::acpi::namespace::{decode_routing_function, SystemBusDeviceIdentifier};
use venix::sys::syscall::CanonicalError;

fn acpi_device(hid: Option<&str>) -> SystemBusDeviceIdentifier {
    SystemBusDeviceIdentifier {
        namespace: 9,
        hid: hid.map(String::from),
        uid: None,
        path: String::from("\\_SB.DEV"),
    }
}

fn pci_function(base_class: u8, sub_class: u8, interface: u8) -> PciDeviceType {
    PciDeviceType {
        address: PciAddress { segment: 0, bus: 0, device: 1, function: 1 },
        vendor_id: 0x8086,
        device_id: 0x7010,
        base_class,
        sub_class,
        interface,
        interrupt_mapping: None,
    }
}

#[test]
fn drivers_registered_in_order_take_their_devices() {
    let mut table = DriverTable::new();
    venix::drivers::init(&mut table);
    assert_eq!(table.drivers.len(), 5);
    assert_eq!(enumerate_device(&table, &DeviceInfo::SystemBus(acpi_device(Some("PNP0103")))), Some(0));
    assert_eq!(enumerate_device(&table, &DeviceInfo::SystemBus(acpi_device(Some("PNP0A03")))), Some(1));
    assert_eq!(enumerate_device(&table, &DeviceInfo::Pci(pci_function(1, 1, 0x80))), Some(2));
    assert_eq!(enumerate_device(&table, &DeviceInfo::Pci(pci_function(0x0C, 0x03, 0x00))), Some(3));
    assert_eq!(enumerate_device(&table, &DeviceInfo::Pci(pci_function(0x0C, 0x03, 0x20))), None);
    assert_eq!(enumerate_device(&table, &DeviceInfo::Usb { class: 3, subclass: 1, protocol: 1 }), Some(4));
    assert_eq!(enumerate_device(&table, &DeviceInfo::Usb { class: 8, subclass: 6, protocol: 0x50 }), None);
    assert_eq!(enumerate_device(&table, &DeviceInfo::SystemBus(acpi_device(Some("PNP0C0F")))), None);
}

#[test]
fn a_set_up_timer_takes_no_second_one() {
    let mut table = DriverTable::new();
    venix::driver::register_driver(&mut table,
        DriverKind::Hpet(venix::drivers::hpet::HpetDriver { hpet_initialised: true }));
    assert_eq!(enumerate_device(&table, &DeviceInfo::SystemBus(acpi_device(Some("PNP0103")))), None);
}

#[test]
fn namespace_devices_offered_to_the_drivers() {
    let mut table = DriverTable::new();
    venix::drivers::init(&mut table);
    let devices = vec![
        acpi_device(None),
        acpi_device(Some("PNP0A03")),
        acpi_device(Some("ACPI0007")),
        acpi_device(Some("PNP0103")),
    ];
    assert_eq!(configure_drivers(&table, &devices), vec![(1, 1), (3, 0)]);
}

#[test]
fn device_files_replace_and_look_up() {
    let mut fs = DevFS::new();
    assert_eq!(fs.lookup(&String::from("console")), Err(CanonicalError::Access));
    register_devfs(&mut fs, String::from("console"), 1);
    fs.add_device(2, String::from("hpet"));
    assert_eq!(fs.lookup(&String::from("console")), Ok(1));
    register_devfs(&mut fs, String::from("console"), 3);
    assert_eq!(fs.lookup(&String::from("console")), Ok(3));
    assert_eq!(fs.lookup(&String::from("hpet")), Ok(2));
}

const CAPABILITIES: u64 = (10_000_000u64 << 32) | 0x2000 | 0x200 | 0x01;

fn timer() -> Hpet {
    let configs = vec![0x00F0_0004u64 << 32, 0x00F0_0000u64 << 32, 0x0030_0000u64 << 32];
    let (hpet, gsi) = Hpet::new(CAPABILITIES, &configs);
    assert_eq!(gsi, 20);
    hpet
}

#[test]
fn hpet_counters_and_routing() {
    let hpet = timer();
    assert!(hpet.counter_64);
    assert_eq!(hpet.free_counters, vec![0, 1, 2]);
    assert_eq!(hpet.num_timers(), 2);
    assert_eq!(hpet.find_timer_interrupting(0), None);
    assert_eq!(hpet.find_timer_interrupting(0b1000_1000), Some((3, 8)));
}

#[test]
fn hpet_timer_programs() {
    let hpet = timer();
    assert_eq!(hpet.set_timer(5, false, 0x08, 100),
        TimerProgram { comparator: 500_100, config: 0x06, periodic_reload: None });
    assert_eq!(hpet.set_timer(5, true, 0x00, 100),
        TimerProgram { comparator: 500_100, config: 0x4E, periodic_reload: Some(500_000) });
    let mut narrow = timer();
    narrow.counter_64 = false;
    assert_eq!(narrow.set_timer(5, false, 0, 0xFFFF_FFF0).comparator, 499_984);
}

#[test]
fn hpet_callbacks_run_when_their_counter_fires() {
    let mut hpet = timer();
    let (c1, _) = hpet.add_oneshot_ms(5, 77, 0, 100).unwrap();
    let (c2, _) = venix::drivers::hpet::add_periodic(&mut hpet, 1, 88, 0, 0).unwrap();
    assert_eq!((c1, c2), (2, 1));
    assert_eq!(hpet.callbacks, vec![TimerCallback(2, 77), TimerCallback(1, 88)]);
    assert_eq!(hpet.periodic_counters, vec![1]);
    let o = hpet.handle_triggered_callbacks(0b100).unwrap();
    assert_eq!((o.counter, o.ack, o.run.clone()), (2, 4, vec![77]));
    assert_eq!(hpet.callbacks, vec![TimerCallback(1, 88)]);
    assert_eq!(hpet.free_counters, vec![0, 2]);
    let o = hpet.handle_triggered_callbacks(0b010).unwrap();
    assert_eq!(o.run, vec![88]);
    assert_eq!(hpet.callbacks, vec![TimerCallback(1, 88)]);
    assert_eq!(hpet.free_counters, vec![0, 2]);
    assert!(hpet.handle_triggered_callbacks(0).is_none());
    let (c3, _) = venix::drivers::hpet::add_oneshot(&mut hpet, 1, 99, 0, 0).unwrap();
    let (c4, _) = hpet.add_recurring_ms(1, 98, 0, 0).unwrap();
    assert_eq!((c3, c4), (2, 0));
    assert!(hpet.add_oneshot_ms(1, 97, 0, 0).is_none());
}

#[test]
fn pci_configuration_addresses() {
    let a = PciConfigAccess::new();
    let addr = PciAddress { segment: 0, bus: 2, device: 3, function: 4 };
    assert_eq!(a.get_address(addr, 0x3C), 0x8000_0000 + 2 * 65536 + 3 * 2048 + 4 * 256 + 0x3C);
}

fn config(vendor_id: u16, is_endpoint: bool, interrupt_pin: u8, interrupt_line: u8) -> PciFunctionConfig {
    PciFunctionConfig {
        vendor_id,
        device_id: 0x1234,
        base_class: 1,
        sub_class: 1,
        interface: 0x80,
        is_endpoint,
        interrupt_pin,
        interrupt_line,
    }
}

#[test]
fn pci_functions_and_their_interrupts() {
    let bus = PciBus::new(5, 0, 0, vec![(decode_routing_function(0x0001_FFFF, 0), InterruptRoute::Gsi(16))]);
    assert!(bus.describe_function(1, 0, config(0xFFFF, true, 0, 0xFF)).is_none());
    let d = bus.describe_function(1, 2, config(0x8086, true, 1, 0xFF)).unwrap();
    assert_eq!(d.address, PciAddress { segment: 0, bus: 0, device: 1, function: 2 });
    assert_eq!(d.interrupt_mapping, Some(InterruptRoute::Gsi(16)));
    let d = bus.describe_function(2, 0, config(0x8086, true, 0, 11)).unwrap();
    assert_eq!(d.interrupt_mapping, Some(InterruptRoute::Irq(11)));
    let d = bus.describe_function(2, 0, config(0x8086, true, 0, 0xFF)).unwrap();
    assert_eq!(d.interrupt_mapping, None);
    let d = bus.describe_function(1, 0, config(0x8086, false, 1, 11)).unwrap();
    assert_eq!(d.interrupt_mapping, None);
    let d = bus.describe_function(1, 0, config(0x8086, true, 2, 0xFF)).unwrap();
    assert_eq!(d.interrupt_mapping, None);
    assert_eq!(InterruptPin::from_config_pin(3), InterruptPin::IntC);
}

#[test]
fn hpet_without_a_free_counter_takes_any_time() {
    let mut hpet = timer();
    for cb in 0..3u64 {
        assert!(hpet.add_oneshot_ms(1, cb, 0, 0).is_some());
    }
    let callbacks = hpet.callbacks.clone();
    assert!(hpet.add_oneshot_ms(u64::MAX, 9, 0, 0).is_none());
    assert!(hpet.add_recurring_ms(u64::MAX, 9, 0, 0).is_none());
    assert!(hpet.free_counters.is_empty());
    assert_eq!(hpet.callbacks, callbacks);
    assert!(hpet.periodic_counters.is_empty());
}

#[test]
fn ide_controller_modes() {
    let d = IdeDriver {};
    assert_eq!(d.controller_buses(0x05, None).unwrap_err(), ControllerError::NativeMode);
    assert_eq!(d.controller_buses(0x80, None).unwrap_err(), ControllerError::NoBusMaster);
    assert_eq!(d.controller_buses(0x80, Some(u32::MAX - 4)).unwrap_err(), ControllerError::NoBusMaster);
    let (p, s) = d.controller_buses(0x80, Some(0xC000)).unwrap();
    assert_eq!((p.io_base, p.busmaster_base), (0x1F0, Some(0xC000)));
    assert_eq!((s.io_base, s.busmaster_base), (0x170, Some(0xC008)));
    let (p, _) = d.controller_buses(0x00, Some(0xC000)).unwrap();
    assert_eq!(p.busmaster_base, None);
}

#[test]
fn ide_model_names_ascii_only() {
    let mut data = vec![0u8; 512];
    let name = b"QEMU HARDDISK";
    for (i, c) in name.iter().enumerate() {
        data[54 + (i ^ 1)] = *c;
    }
    for i in name.len()..40 {
        data[54 + (i ^ 1)] = b' ';
    }
    let ident = parse_identify(&data);
    assert_eq!(ident.model_name(), Some(String::from("QEMU HARDDISK")));
    data[60] = 0xC1;
    assert_eq!(parse_identify(&data).model_name(), None);
}
