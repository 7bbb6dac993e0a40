//! USB: ports, setup packets, transfers, and the requests that enumerate a
//! device on a port.
use vstd::prelude::*;

verus! {

#[derive(Debug, Clone, Copy, PartialEq, Eq, Structural)]
pub enum PortStatus {
    Connected,
    Disconnected,
}

#[derive(Debug, Clone, Copy, PartialEq, Eq, Structural)]
pub enum PortSpeed {
    LowSpeed,
    FullSpeed,
}

/// A root-hub port.
#[derive(Debug, Clone, Copy, PartialEq, Eq, Structural)]
pub struct Port {
    pub num: u32,
    pub status: PortStatus,
    pub speed: PortSpeed,
}

#[derive(Debug, Clone, Copy, PartialEq, Eq, Structural)]
pub enum SetupPacketRequestTypeDirection {
    HostToDevice,
    DeviceToHost,
}

#[derive(Debug, Clone, Copy, PartialEq, Eq, Structural)]
pub enum SetupPacketRequestTypeRequestType {
    Standard,
    Class,
    Vendor,
}

#[derive(Debug, Clone, Copy, PartialEq, Eq, Structural)]
pub enum SetupPacketRequestTypeRecipient {
    Device,
    Interface,
    Endpoint,
    Other,
}

/// The `bmRequestType` byte of a setup packet: direction in bit 7, type in
/// bits 5-6, recipient in bits 0-4.
#[derive(Debug, Clone, Copy, PartialEq, Eq, Structural)]
pub struct SetupPacketRequestType(pub u8);

pub open spec fn request_type_code(t: SetupPacketRequestTypeRequestType) -> u8 {
    match t {
        SetupPacketRequestTypeRequestType::Standard => 0,
        SetupPacketRequestTypeRequestType::Class => 1,
        SetupPacketRequestTypeRequestType::Vendor => 2,
    }
}

pub open spec fn recipient_code(r: SetupPacketRequestTypeRecipient) -> u8 {
    match r {
        SetupPacketRequestTypeRecipient::Device => 0,
        SetupPacketRequestTypeRecipient::Interface => 1,
        SetupPacketRequestTypeRecipient::Endpoint => 2,
        SetupPacketRequestTypeRecipient::Other => 3,
    }
}

/// The request-type byte with the given direction, type and recipient.
pub open spec fn request_type_byte(
    d: SetupPacketRequestTypeDirection,
    t: SetupPacketRequestTypeRequestType,
    r: SetupPacketRequestTypeRecipient,
) -> u8 {
    ((if d == SetupPacketRequestTypeDirection::DeviceToHost { 0x80int } else { 0int })
        + request_type_code(t) * 32 + recipient_code(r)) as u8
}

impl SetupPacketRequestType {
    /// All fields clear.
    pub fn new() -> (r: Self)
        ensures
            r.0 == 0,
    {
        SetupPacketRequestType(0)
    }

    pub fn set_direction_from_enum(&mut self, direction: SetupPacketRequestTypeDirection)
        ensures
            final(self).0 == (if direction == SetupPacketRequestTypeDirection::DeviceToHost {
                old(self).0 | 0x80u8
            } else {
                old(self).0 & 0x7Fu8
            }),
    {
        match direction {
            SetupPacketRequestTypeDirection::DeviceToHost => self.0 = self.0 | 0x80,
            SetupPacketRequestTypeDirection::HostToDevice => self.0 = self.0 & 0x7F,
        }
    }

    pub fn set_request_type_from_enum(&mut self, request_type: SetupPacketRequestTypeRequestType)
        ensures
            final(self).0 == ((old(self).0 & 0x9Fu8) | (request_type_code(request_type) << 5u8)),
    {
        let code: u8 = match request_type {
            SetupPacketRequestTypeRequestType::Standard => 0,
            SetupPacketRequestTypeRequestType::Class => 1,
            SetupPacketRequestTypeRequestType::Vendor => 2,
        };
        self.0 = (self.0 & 0x9F) | (code << 5u8);
    }

    pub fn set_recipient_from_enum(&mut self, recipient: SetupPacketRequestTypeRecipient)
        ensures
            final(self).0 == ((old(self).0 & 0xE0u8) | recipient_code(recipient)),
    {
        let code: u8 = match recipient {
            SetupPacketRequestTypeRecipient::Device => 0,
            SetupPacketRequestTypeRecipient::Interface => 1,
            SetupPacketRequestTypeRecipient::Endpoint => 2,
            SetupPacketRequestTypeRecipient::Other => 3,
        };
        self.0 = (self.0 & 0xE0) | code;
    }
}

/// Build a request-type byte from its three parts.
pub fn make_request_type(
    d: SetupPacketRequestTypeDirection,
    t: SetupPacketRequestTypeRequestType,
    r: SetupPacketRequestTypeRecipient,
) -> (rt: SetupPacketRequestType)
    ensures
        rt.0 == request_type_byte(d, t, r),
{
    let mut rt = SetupPacketRequestType::new();
    rt.set_direction_from_enum(d);
    rt.set_request_type_from_enum(t);
    rt.set_recipient_from_enum(r);
    let ghost tc = request_type_code(t);
    let ghost rc = recipient_code(r);
    assert(((((0u8 | 0x80u8) & 0x9Fu8) | (tc << 5u8)) & 0xE0u8) | rc == 0x80 + tc * 32 + rc) by (bit_vector)
        requires tc < 3, rc < 4;
    assert(((((0u8 & 0x7Fu8) & 0x9Fu8) | (tc << 5u8)) & 0xE0u8) | rc == tc * 32 + rc) by (bit_vector)
        requires tc < 3, rc < 4;
    rt
}

/// Standard request codes.
#[derive(Debug, Clone, Copy, PartialEq, Eq, Structural)]
pub enum RequestCode {
    GetStatus,
    ClearFeature,
    SetFeature,
    SetAddress,
    GetDescriptor,
    SetDescriptor,
    GetConfiguration,
    SetConfiguration,
    GetInterface,
    SetInterface,
    SyncFrame,
}

pub open spec fn request_code_value(c: RequestCode) -> u8 {
    match c {
        RequestCode::GetStatus => 0,
        RequestCode::ClearFeature => 1,
        RequestCode::SetFeature => 3,
        RequestCode::SetAddress => 5,
        RequestCode::GetDescriptor => 6,
        RequestCode::SetDescriptor => 7,
        RequestCode::GetConfiguration => 8,
        RequestCode::SetConfiguration => 9,
        RequestCode::GetInterface => 10,
        RequestCode::SetInterface => 11,
        RequestCode::SyncFrame => 12,
    }
}

impl RequestCode {
    /// The request's number.
    pub fn value(self) -> (r: u8)
        ensures
            r == request_code_value(self),
    {
        match self {
            RequestCode::GetStatus => 0,
            RequestCode::ClearFeature => 1,
            RequestCode::SetFeature => 3,
            RequestCode::SetAddress => 5,
            RequestCode::GetDescriptor => 6,
            RequestCode::SetDescriptor => 7,
            RequestCode::GetConfiguration => 8,
            RequestCode::SetConfiguration => 9,
            RequestCode::GetInterface => 10,
            RequestCode::SetInterface => 11,
            RequestCode::SyncFrame => 12,
        }
    }
}

/// A setup packet.
#[derive(Debug, Clone, Copy, PartialEq, Eq, Structural)]
pub struct SetupPacket {
    pub request_type: SetupPacketRequestType,
    pub request: RequestCode,
    pub value: u16,
    pub index: u16,
    pub length: u16,
}

/// The eight bytes of a setup packet on the wire.
pub open spec fn setup_packet_bytes(p: SetupPacket) -> Seq<u8> {
    seq![p.request_type.0, request_code_value(p.request),
         (p.value % 256) as u8, (p.value / 256) as u8,
         (p.index % 256) as u8, (p.index / 256) as u8,
         (p.length % 256) as u8, (p.length / 256) as u8]
}

impl SetupPacket {
    /// The packet as it is sent.
    pub fn to_bytes(&self) -> (r: Vec<u8>)
        ensures
            r@ == setup_packet_bytes(*self),
    {
        let mut v: Vec<u8> = Vec::new();
        v.push(self.request_type.0);
        v.push(self.request.value());
        v.push((self.value % 256) as u8);
        v.push((self.value / 256) as u8);
        v.push((self.index % 256) as u8);
        v.push((self.index / 256) as u8);
        v.push((self.length % 256) as u8);
        v.push((self.length / 256) as u8);
        assert(v@ =~= setup_packet_bytes(*self));
        v
    }
}

/// A recurring interrupt-IN transfer: endpoint, period and packet length.
#[derive(Debug, Clone, Copy, PartialEq, Eq, Structural)]
pub struct InterruptTransferDescriptor {
    pub endpoint: u8,
    pub frequency_in_ms: u8,
    pub length: u8,
}

/// A control transfer writing `buf` after its setup packet.
#[derive(Debug, Clone)]
pub struct WriteSetupPacket {
    pub setup_packet: SetupPacket,
    pub buf: Vec<u8>,
}

/// The kinds of transfer.
#[derive(Debug, Clone)]
pub enum TransferType {
    ControlRead(SetupPacket),
    ControlWrite(WriteSetupPacket),
    ControlNoData(SetupPacket),
    BulkWrite,
    BulkRead,
    InterruptOut,
    InterruptIn(InterruptTransferDescriptor),
}

/// A transfer to a device's endpoint at a port speed, completed by polling
/// or by interrupt.
#[derive(Debug, Clone)]
pub struct UsbTransfer {
    pub transfer_type: TransferType,
    pub endpoint: u8,
    pub speed: PortSpeed,
    pub poll: bool,
}

/// A USB host controller.
pub trait UsbHCI {
    /// The ports of the root hub that are attached.
    fn get_ports(&self) -> Vec<Port>;

    /// An address no device on the bus has yet.
    fn get_free_address(&mut self) -> u8;
}

/// The standard device-to-host request type (0x80) and host-to-device
/// request type (0x00) of enumeration.
pub fn standard_read_request_type() -> (rt: SetupPacketRequestType)
    ensures
        rt.0 == 0x80,
{
    make_request_type(
        SetupPacketRequestTypeDirection::DeviceToHost,
        SetupPacketRequestTypeRequestType::Standard,
        SetupPacketRequestTypeRecipient::Device,
    )
}

pub fn standard_write_request_type() -> (rt: SetupPacketRequestType)
    ensures
        rt.0 == 0,
{
    make_request_type(
        SetupPacketRequestTypeDirection::HostToDevice,
        SetupPacketRequestTypeRequestType::Standard,
        SetupPacketRequestTypeRecipient::Device,
    )
}

/// The request that reads the first `length` bytes of configuration
/// descriptor 0.
pub fn get_configuration_descriptor(length: u16, speed: PortSpeed) -> (t: UsbTransfer)
    ensures
        t.transfer_type matches TransferType::ControlRead(p) && p == (SetupPacket {
            request_type: SetupPacketRequestType(0x80),
            request: RequestCode::GetDescriptor,
            value: 0x0200,
            index: 0,
            length,
        }),
        t.endpoint == 0,
        t.speed == speed,
        t.poll,
{
    UsbTransfer {
        transfer_type: TransferType::ControlRead(SetupPacket {
            request_type: standard_read_request_type(),
            request: RequestCode::GetDescriptor,
            value: 0x0200,
            index: 0,
            length,
        }),
        endpoint: 0,
        speed,
        poll: true,
    }
}

/// The request that gives the device on a port its address.
pub fn set_address(address: u8, speed: PortSpeed) -> (t: UsbTransfer)
    ensures
        t.transfer_type matches TransferType::ControlNoData(p) && p == (SetupPacket {
            request_type: SetupPacketRequestType(0),
            request: RequestCode::SetAddress,
            value: address as u16,
            index: 0,
            length: 0,
        }),
        t.endpoint == 0,
        t.speed == speed,
        t.poll,
{
    UsbTransfer {
        transfer_type: TransferType::ControlNoData(SetupPacket {
            request_type: standard_write_request_type(),
            request: RequestCode::SetAddress,
            value: address as u16,
            index: 0,
            length: 0,
        }),
        endpoint: 0,
        speed,
        poll: true,
    }
}

} // verus!
