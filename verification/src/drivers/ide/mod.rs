//! The IDE controller driver.
use vstd::prelude::*;
use crate::driver::{DeviceInfo, Driver, DriverKind, DriverTable, register_driver};

pub mod ide;

verus! {

/// The driver for IDE controllers (PCI class 1, subclass 1).
pub struct IdeDriver {}

impl Driver for IdeDriver {
    open spec fn accepts(&self, info: DeviceInfo) -> bool {
        info matches DeviceInfo::Pci(p) && p.base_class == 1 && p.sub_class == 1
    }

    open spec fn accepts_new(&self, info: DeviceInfo) -> bool {
        true
    }

    fn check_device(&self, info: &DeviceInfo) -> (r: bool) {
        match info {
            DeviceInfo::Pci(p) => p.base_class == 1 && p.sub_class == 1,
            _ => false,
        }
    }

    fn check_new_device(&self, info: &DeviceInfo) -> (r: bool) {
        true
    }
}

/// Where one IDE bus's registers are: control block, command block, and
/// bus-master registers when the controller does DMA.
#[derive(Debug, Clone, Copy, PartialEq, Eq, Structural)]
pub struct IdeBus {
    pub control_base: u16,
    pub io_base: u16,
    pub busmaster_base: Option<u32>,
}

impl IdeDriver {
    /// The two buses of a controller in compatibility mode (programming
    /// interface bit 0 clear) at the legacy ports: primary then secondary.
    /// A bus-mastering controller (bit 7) has its bus-master registers at
    /// the I/O BAR 4, the secondary's 8 bytes above the primary's.
    pub fn bus_layout(&self, interface: u8, busmaster_bar: Option<u32>) -> (r: (IdeBus, IdeBus))
        requires
            interface & 1 == 0,
            interface & 0x80 != 0 ==> (busmaster_bar matches Some(b) && b + 8 <= u32::MAX),
        ensures
            r.0.control_base == 0x3F6 && r.0.io_base == 0x1F0,
            r.1.control_base == 0x376 && r.1.io_base == 0x170,
            interface & 0x80 != 0 ==> r.0.busmaster_base == busmaster_bar
                && r.1.busmaster_base == Some((busmaster_bar.unwrap() + 8) as u32),
            interface & 0x80 == 0 ==> r.0.busmaster_base is None && r.1.busmaster_base is None,
    {
        let (bm0, bm1) = if interface & 0x80 != 0 {
            match busmaster_bar {
                Some(b) => (Some(b), Some(b + 8)),
                None => (None, None),
            }
        } else {
            (None, None)
        };
        (IdeBus { control_base: 0x3F6, io_base: 0x1F0, busmaster_base: bm0 },
         IdeBus { control_base: 0x376, io_base: 0x170, busmaster_base: bm1 })
    }
}

/// Why a controller's buses cannot be driven.
#[derive(Debug, Clone, Copy, PartialEq, Eq, Structural)]
pub enum ControllerError {
    /// The controller is in native mode (programming interface bit 0);
    /// only compatibility mode is supported.
    NativeMode,
    /// The controller does bus mastering (bit 7) but has no bus-master
    /// registers with room for the secondary's, 8 bytes above the primary's.
    NoBusMaster,
}

impl IdeDriver {
    /// The two buses of the controller with programming interface
    /// `interface` and I/O BAR 4 `busmaster_bar`, as `bus_layout` gives them,
    /// or why they cannot be driven.
    pub fn controller_buses(&self, interface: u8, busmaster_bar: Option<u32>)
        -> (r: Result<(IdeBus, IdeBus), ControllerError>)
        ensures
            interface & 1 != 0 ==> r == Err::<(IdeBus, IdeBus), ControllerError>(ControllerError::NativeMode),
            interface & 1 == 0 && interface & 0x80 != 0 && !(busmaster_bar matches Some(b) && b + 8 <= u32::MAX)
                ==> r == Err::<(IdeBus, IdeBus), ControllerError>(ControllerError::NoBusMaster),
            interface & 1 == 0 && (interface & 0x80 != 0 ==> (busmaster_bar matches Some(b) && b + 8 <= u32::MAX))
                ==> (r matches Ok((p, q)) && {
                &&& p.control_base == 0x3F6 && p.io_base == 0x1F0
                &&& q.control_base == 0x376 && q.io_base == 0x170
                &&& interface & 0x80 != 0 ==> p.busmaster_base == busmaster_bar
                    && q.busmaster_base == Some((busmaster_bar.unwrap() + 8) as u32)
                &&& interface & 0x80 == 0 ==> p.busmaster_base is None && q.busmaster_base is None
            }),
    {
        if interface & 1 != 0 {
            return Err(ControllerError::NativeMode);
        }
        if interface & 0x80 != 0 {
            match busmaster_bar {
                Some(b) => {
                    if b > u32::MAX - 8 {
                        return Err(ControllerError::NoBusMaster);
                    }
                },
                None => return Err(ControllerError::NoBusMaster),
            }
        }
        Ok(self.bus_layout(interface, busmaster_bar))
    }
}

/// Register the IDE driver.
pub fn init(table: &mut DriverTable)
    ensures
        final(table).drivers@ == old(table).drivers@.push(DriverKind::Ide(IdeDriver {})),
{
    register_driver(table, DriverKind::Ide(IdeDriver {}));
}

} // verus!
