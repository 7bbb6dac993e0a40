//! USB: host controllers and the protocol spoken with devices.
use vstd::prelude::*;
use crate::driver::{DriverKind, DriverTable};

pub mod uhci;
pub mod usb;
pub mod protocol;
pub mod enumerate;

verus! {

/// Register the USB host controller drivers.
pub fn init(table: &mut DriverTable)
    ensures
        final(table).drivers@ == old(table).drivers@.push(DriverKind::Uhci(uhci::UhciDriver {})),
{
    uhci::init(table);
}

} // verus!
