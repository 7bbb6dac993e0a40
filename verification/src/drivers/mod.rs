//! Device drivers.
use vstd::prelude::*;
use crate::driver::{DriverKind, DriverTable};

pub mod hpet;
pub mod pcie;
pub mod ide;
pub mod usb;
pub mod usbhid;

verus! {

/// Register every driver: timer, PCI bus, IDE, USB host controllers, HID.
pub fn init(table: &mut DriverTable)
    ensures
        final(table).drivers@ == old(table).drivers@
            .push(DriverKind::Hpet(hpet::HpetDriver { hpet_initialised: false }))
            .push(DriverKind::Pci(pcie::PciDriver {}))
            .push(DriverKind::Ide(ide::IdeDriver {}))
            .push(DriverKind::Uhci(usb::uhci::UhciDriver {}))
            .push(DriverKind::Hid(usbhid::HidDriver {})),
{
    hpet::init(table);
    pcie::init(table);
    ide::init(table);
    usb::init(table);
    usbhid::init(table);
}

} // verus!
