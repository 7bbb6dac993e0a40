//! PCI: configuration-space addressing, what a function's configuration
//! header says about it, and the PCI bus driver.
use vstd::prelude::*;
use crate::interrupts::InterruptRoute;
use crate::driver::{DeviceInfo, Driver, DriverKind, DriverTable, register_driver};
use crate::sys::acpi::namespace::{PciInterruptFunction, SystemBusDeviceIdentifier, lookup_route, route_lookup};

verus! {

/// The interrupt pin a PCI function raises.
#[derive(Debug, Clone, Copy, PartialEq, Eq, Structural)]
pub enum InterruptPin {
    IntA,
    IntB,
    IntC,
    IntD,
}

impl InterruptPin {
    /// The pin numbered from 0, as routing tables number them.
    pub open spec fn from_routing_index(i: u8) -> InterruptPin {
        if i == 0 {
            InterruptPin::IntA
        } else if i == 1 {
            InterruptPin::IntB
        } else if i == 2 {
            InterruptPin::IntC
        } else {
            InterruptPin::IntD
        }
    }

    /// The pin numbered from 1, as the configuration header numbers them.
    pub fn from_config_pin(p: u8) -> (r: InterruptPin)
        requires
            1 <= p <= 4,
        ensures
            r == InterruptPin::from_routing_index((p - 1) as u8),
    {
        match p {
            1 => InterruptPin::IntA,
            2 => InterruptPin::IntB,
            3 => InterruptPin::IntC,
            _ => InterruptPin::IntD,
        }
    }

    /// Whether two pins are the same pin.
    pub fn same(&self, other: &InterruptPin) -> (r: bool)
        ensures
            r == (*self == *other),
    {
        match (self, other) {
            (InterruptPin::IntA, InterruptPin::IntA) => true,
            (InterruptPin::IntB, InterruptPin::IntB) => true,
            (InterruptPin::IntC, InterruptPin::IntC) => true,
            (InterruptPin::IntD, InterruptPin::IntD) => true,
            _ => false,
        }
    }
}

/// The location of a PCI function: segment, bus, device (below 32) and
/// function (below 8).
#[derive(Debug, Clone, Copy, PartialEq, Eq, Structural)]
pub struct PciAddress {
    pub segment: u16,
    pub bus: u8,
    pub device: u8,
    pub function: u8,
}

/// The value written to the configuration address port to reach `offset`
/// of a function's configuration space: the enable bit, the bus, device and
/// function numbers, and the offset.
pub open spec fn config_address(bus: u8, device: u8, function: u8, offset: u16) -> u32 {
    (0x8000_0000u32 | ((bus as u32) << 16u32) | ((device as u32) << 11u32)
        | ((function as u32) << 8u32) | (offset as u32)) as u32
}

/// Access to configuration space through the legacy I/O ports.
#[derive(Clone, Copy)]
pub struct PciConfigAccess {}

impl PciConfigAccess {
    pub fn new() -> (r: PciConfigAccess)
        ensures
            r == (PciConfigAccess {}),
    {
        PciConfigAccess {}
    }

    /// The configuration address of `offset` in the function at `address`;
    /// for a valid address and a dword offset inside the 256-byte header it
    /// is `0x8000_0000 + bus * 65536 + device * 2048 + function * 256 + offset`.
    pub fn get_address(&self, address: PciAddress, offset: u16) -> (r: u32)
        ensures
            r == config_address(address.bus, address.device, address.function, offset),
            address.device < 32 && address.function < 8 && offset < 256 ==>
                r == 0x8000_0000 + address.bus * 65536 + address.device * 2048 + address.function * 256 + offset,
    {
        let enable_bit: u32 = 1u32 << 31u32;
        let bus_number: u32 = (address.bus as u32) << 16u32;
        let device_number: u32 = (address.device as u32) << 11u32;
        let function: u32 = (address.function as u32) << 8u32;
        let r = enable_bit | bus_number | device_number | function | (offset as u32);
        proof {
            let b = address.bus as u32;
            let d = address.device as u32;
            let f = address.function as u32;
            let o = offset as u32;
            assert(enable_bit == 0x8000_0000u32) by (bit_vector)
                requires enable_bit == 1u32 << 31u32;
            if address.device < 32 && address.function < 8 && offset < 256 {
                assert((0x8000_0000u32 | (b << 16u32) | (d << 11u32) | (f << 8u32) | o)
                    == 0x8000_0000 + b * 65536 + d * 2048 + f * 256 + o) by (bit_vector)
                    requires b < 256, d < 32, f < 8, o < 256;
            }
        }
        r
    }
}

/// What a function's configuration header says: its identifiers, class,
/// whether it is an endpoint, and its interrupt pin (0 for none) and line
/// (0xFF for none).
#[derive(Clone, Copy)]
pub struct PciFunctionConfig {
    pub vendor_id: u16,
    pub device_id: u16,
    pub base_class: u8,
    pub sub_class: u8,
    pub interface: u8,
    pub is_endpoint: bool,
    pub interrupt_pin: u8,
    pub interrupt_line: u8,
}

/// A PCI function found on a bus.
#[derive(Clone, Copy)]
pub struct PciDeviceType {
    pub address: PciAddress,
    pub vendor_id: u16,
    pub device_id: u16,
    pub base_class: u8,
    pub sub_class: u8,
    pub interface: u8,
    pub interrupt_mapping: Option<InterruptRoute>,
}

/// A PCI bus, with the interrupt routing its ACPI node describes.
pub struct PciBus {
    pub acpi_namespace: u64,
    pub routing_table: Vec<(PciInterruptFunction, InterruptRoute)>,
    pub segment: u16,
    pub bus: u8,
}

/// How the interrupts of a function with configuration `c` at
/// `device`/`function` arrive: through the routing table when it raises a
/// pin, else on its legacy line when one is set; nothing for a bridge.
pub open spec fn interrupt_mapping_spec(
    table: Seq<(PciInterruptFunction, InterruptRoute)>,
    device: u8,
    function: u8,
    c: PciFunctionConfig,
) -> Option<InterruptRoute> {
    if !c.is_endpoint {
        None
    } else if c.interrupt_pin != 0 {
        route_lookup(table, PciInterruptFunction {
            device,
            function: Some(function),
            pin: InterruptPin::from_routing_index((c.interrupt_pin - 1) as u8),
        })
    } else if c.interrupt_line != 0xFF {
        Some(InterruptRoute::Irq(c.interrupt_line))
    } else {
        None
    }
}

impl PciBus {
    /// A bus of `segment` described by the ACPI node `acpi_namespace`, with
    /// the routing table read from that node.
    pub fn new(
        acpi_namespace: u64,
        segment: u16,
        bus: u8,
        routing_table: Vec<(PciInterruptFunction, InterruptRoute)>,
    ) -> (r: PciBus)
        ensures
            r.acpi_namespace == acpi_namespace,
            r.segment == segment,
            r.bus == bus,
            r.routing_table@ == routing_table@,
    {
        PciBus { acpi_namespace, routing_table, segment, bus }
    }

    /// The device a function of this bus is, given its configuration header;
    /// `None` when no function answers (vendor 0xFFFF). A raised pin must be
    /// one of the four.
    pub fn describe_function(&self, device: u8, function: u8, c: PciFunctionConfig) -> (r: Option<PciDeviceType>)
        requires
            c.is_endpoint ==> c.interrupt_pin <= 4,
        ensures
            c.vendor_id == 0xFFFF <==> r is None,
            r matches Some(d) ==> {
                &&& d.address == (PciAddress { segment: self.segment, bus: self.bus, device, function })
                &&& d.vendor_id == c.vendor_id
                &&& d.device_id == c.device_id
                &&& d.base_class == c.base_class
                &&& d.sub_class == c.sub_class
                &&& d.interface == c.interface
                &&& d.interrupt_mapping == interrupt_mapping_spec(self.routing_table@, device, function, c)
            },
    {
        if c.vendor_id == 0xFFFF {
            return None;
        }
        let mut interrupt_mapping: Option<InterruptRoute> = None;
        if c.is_endpoint {
            if c.interrupt_pin != 0 {
                let f = PciInterruptFunction {
                    device,
                    function: Some(function),
                    pin: InterruptPin::from_config_pin(c.interrupt_pin),
                };
                interrupt_mapping = lookup_route(&self.routing_table, &f);
            } else if c.interrupt_line != 0xFF {
                interrupt_mapping = Some(InterruptRoute::Irq(c.interrupt_line));
            }
        }
        Some(PciDeviceType {
            address: PciAddress { segment: self.segment, bus: self.bus, device, function },
            vendor_id: c.vendor_id,
            device_id: c.device_id,
            base_class: c.base_class,
            sub_class: c.sub_class,
            interface: c.interface,
            interrupt_mapping,
        })
    }
}

/// The driver for the PCI host bridge (ACPI `PNP0A03`).
pub struct PciDriver {}

/// Whether a namespace device has the hardware identifier `id`.
pub open spec fn has_hid(sb: SystemBusDeviceIdentifier, id: Seq<char>) -> bool {
    sb.hid matches Some(h) && h@ == id
}

impl Driver for PciDriver {
    open spec fn accepts(&self, info: DeviceInfo) -> bool {
        info matches DeviceInfo::SystemBus(sb) && has_hid(sb, "PNP0A03"@)
    }

    open spec fn accepts_new(&self, info: DeviceInfo) -> bool {
        true
    }

    fn check_device(&self, info: &DeviceInfo) -> (r: bool) {
        match info {
            DeviceInfo::SystemBus(sb) => match &sb.hid {
                Some(h) => *h == "PNP0A03".to_owned(),
                None => false,
            },
            _ => false,
        }
    }

    fn check_new_device(&self, info: &DeviceInfo) -> (r: bool) {
        true
    }
}

/// Register the PCI bus driver.
pub fn init(table: &mut DriverTable)
    ensures
        final(table).drivers@ == old(table).drivers@.push(DriverKind::Pci(PciDriver {})),
{
    register_driver(table, DriverKind::Pci(PciDriver {}));
}

} // verus!
