//! Bringing up the device on a root-hub port: read the head of its
//! configuration, give it an address, read the whole configuration, and
//! report each of its interfaces as a device of its own. The controller does
//! the transfers; this decides what comes next.
use vstd::prelude::*;
use crate::drivers::usb::usb::{
    get_configuration_descriptor, set_address, Port, PortStatus, RequestCode, SetupPacket, SetupPacketRequestType,
    TransferType, UsbTransfer,
};
use crate::drivers::usb::protocol::{
    configuration_at, configuration_descriptors_at, interfaces_match, parse_configuration_descriptor,
    parse_configuration_descriptors, ConfigurationDescriptor, InterfaceDescriptor, Parsed,
};

verus! {

/// Bytes of a configuration descriptor alone.
pub const CONFIGURATION_HEADER_LEN: u16 = 9;

/// The read of the first `length` bytes of configuration descriptor 0.
pub open spec fn config_read(length: u16) -> TransferType {
    TransferType::ControlRead(SetupPacket {
        request_type: SetupPacketRequestType(0x80),
        request: RequestCode::GetDescriptor,
        value: 0x0200,
        index: 0,
        length,
    })
}

/// The request that gives a device the address `a`.
pub open spec fn address_write(a: u8) -> TransferType {
    TransferType::ControlNoData(SetupPacket {
        request_type: SetupPacketRequestType(0),
        request: RequestCode::SetAddress,
        value: a as u16,
        index: 0,
        length: 0,
    })
}

/// How far the bring-up of a port has come.
#[derive(Debug, Clone, Copy, PartialEq, Eq, Structural)]
pub enum EnumState {
    /// Nothing done yet.
    Start,
    /// The head of the configuration was asked for.
    AwaitHeader,
    /// The configuration is `total_length` bytes long; an address is needed.
    AwaitAddress { total_length: u16 },
    /// The device was told its address.
    AwaitAddressSet { address: u8, total_length: u16 },
    /// The whole configuration was asked for from the device at `address`.
    AwaitConfiguration { address: u8 },
    /// Nothing more to do on this port.
    Done,
}

/// What happened since the last step.
pub enum EnumEvent {
    /// The bring-up begins.
    Begin,
    /// A read transfer completed with these bytes.
    Read(Vec<u8>),
    /// The controller gave out this address.
    Address(u8),
    /// A transfer without data completed.
    Sent,
}

/// What to do next.
pub enum EnumAction {
    /// Do this transfer to the device at `address`.
    Transfer { address: u8, transfer: UsbTransfer },
    /// Ask the controller for a free address.
    GetAddress,
    /// The port has no device: nothing to do.
    Skip,
    /// The device's configuration and interfaces, each interface a device
    /// at `address`.
    Devices { address: u8, configuration: ConfigurationDescriptor, interfaces: Vec<InterfaceDescriptor> },
    /// The device answered what cannot be taken apart, or the event does not
    /// fit the state; the bring-up stops.
    Fail,
}

/// One step of the bring-up of the device on `port`.
/// - At the start, a disconnected port is skipped; otherwise the first 9
///   bytes of configuration descriptor 0 are read from address 0.
/// - Those bytes give the configuration's total length, and an address is
///   asked for.
/// - With the address, the device is told it (a transfer to address 0).
/// - Once that is done, the whole configuration is read from the new
///   address.
/// - Its interfaces are reported, and the port is done.
pub fn enumerate_step(state: EnumState, port: Port, event: EnumEvent) -> (r: (EnumState, EnumAction))
    ensures
        match (state, event) {
            (EnumState::Start, EnumEvent::Begin) => if port.status == PortStatus::Disconnected {
                r.0 == EnumState::Done && r.1 is Skip
            } else {
                r.0 == EnumState::AwaitHeader && (r.1 matches EnumAction::Transfer { address, transfer }
                    && address == 0
                    && transfer.transfer_type == config_read(CONFIGURATION_HEADER_LEN)
                    && transfer.endpoint == 0 && transfer.speed == port.speed && transfer.poll)
            },
            (EnumState::AwaitHeader, EnumEvent::Read(b)) => match configuration_at(b@) {
                Parsed::Done(c, _) => r.0 == (EnumState::AwaitAddress { total_length: c.total_length })
                    && r.1 is GetAddress,
                _ => r.0 == EnumState::Done && r.1 is Fail,
            },
            (EnumState::AwaitAddress { total_length }, EnumEvent::Address(a)) =>
                r.0 == (EnumState::AwaitAddressSet { address: a, total_length })
                && (r.1 matches EnumAction::Transfer { address, transfer }
                && address == 0
                && transfer.transfer_type == address_write(a)
                && transfer.endpoint == 0 && transfer.speed == port.speed && transfer.poll),
            (EnumState::AwaitAddressSet { address: a, total_length }, EnumEvent::Sent) =>
                r.0 == (EnumState::AwaitConfiguration { address: a })
                && (r.1 matches EnumAction::Transfer { address, transfer }
                && address == a
                && transfer.transfer_type == config_read(total_length)
                && transfer.endpoint == 0 && transfer.speed == port.speed && transfer.poll),
            (EnumState::AwaitConfiguration { address: a }, EnumEvent::Read(b)) => match configuration_descriptors_at(b@) {
                Parsed::Done((c, is), _) => r.0 == EnumState::Done
                    && (r.1 matches EnumAction::Devices { address, configuration, interfaces }
                    && address == a && configuration == c && interfaces_match(b@, is, interfaces@)),
                _ => r.0 == EnumState::Done && r.1 is Fail,
            },
            _ => r.0 == EnumState::Done && r.1 is Fail,
        },
{
    match (state, event) {
        (EnumState::Start, EnumEvent::Begin) => {
            if port.status == PortStatus::Disconnected {
                (EnumState::Done, EnumAction::Skip)
            } else {
                let t = get_configuration_descriptor(CONFIGURATION_HEADER_LEN, port.speed);
                (EnumState::AwaitHeader, EnumAction::Transfer { address: 0, transfer: t })
            }
        },
        (EnumState::AwaitHeader, EnumEvent::Read(b)) => {
            match parse_configuration_descriptor(b.as_slice()) {
                Ok((c, _)) => (EnumState::AwaitAddress { total_length: c.total_length }, EnumAction::GetAddress),
                Err(_) => (EnumState::Done, EnumAction::Fail),
            }
        },
        (EnumState::AwaitAddress { total_length }, EnumEvent::Address(a)) => {
            let t = set_address(a, port.speed);
            (EnumState::AwaitAddressSet { address: a, total_length }, EnumAction::Transfer { address: 0, transfer: t })
        },
        (EnumState::AwaitAddressSet { address, total_length }, EnumEvent::Sent) => {
            let t = get_configuration_descriptor(total_length, port.speed);
            (EnumState::AwaitConfiguration { address }, EnumAction::Transfer { address, transfer: t })
        },
        (EnumState::AwaitConfiguration { address }, EnumEvent::Read(b)) => {
            match parse_configuration_descriptors(b.as_slice()) {
                Ok((configuration, interfaces, _)) => (EnumState::Done, EnumAction::Devices { address, configuration, interfaces }),
                Err(_) => (EnumState::Done, EnumAction::Fail),
            }
        },
        _ => (EnumState::Done, EnumAction::Fail),
    }
}

} // verus!
