//! USB human interface devices.
use vstd::prelude::*;
use crate::driver::{DeviceInfo, Driver, DriverKind, DriverTable, register_driver};
use crate::drivers::usb::protocol::{
    EndpointDescriptor, EndpointDirection, EndpointTransferType, GenericDescriptor, InterfaceDescriptor,
};
use crate::drivers::usb::usb::{InterruptTransferDescriptor, PortSpeed};
use crate::drivers::usbhid::protocol::{BootKeyPresses, HidDescriptor, Key};

pub mod protocol;

verus! {

/// The report protocol a HID interface speaks: the fixed boot protocol
/// (interface subclass 1) or report descriptors.
#[derive(Debug, Clone, Copy, PartialEq, Eq, Structural)]
pub enum HidProtocol {
    Boot,
    Report,
}

/// The protocol an interface of subclass `subclass` speaks.
pub fn protocol_for_subclass(subclass: u8) -> (r: HidProtocol)
    ensures
        r == if subclass == 1 { HidProtocol::Boot } else { HidProtocol::Report },
{
    if subclass == 1 { HidProtocol::Boot } else { HidProtocol::Report }
}

/// The HID class descriptor among an interface's other descriptors: the
/// last of type 0x21.
pub open spec fn hid_descriptor_index(ds: Seq<GenericDescriptor>) -> Option<int>
    decreases ds.len(),
{
    if ds.len() == 0 {
        None
    } else if ds.last().descriptor_type == 0x21 {
        Some(ds.len() - 1)
    } else {
        hid_descriptor_index(ds.drop_last())
    }
}

pub fn find_hid_descriptor(ds: &Vec<GenericDescriptor>) -> (r: Option<usize>)
    ensures
        r matches Some(i) ==> Some(i as int) == hid_descriptor_index(ds@) && i < ds@.len(),
        r is None <==> hid_descriptor_index(ds@) is None,
{
    let mut i: usize = ds.len();
    assert(ds@.take(i as int) =~= ds@);
    while i > 0
        invariant
            i <= ds@.len(),
            hid_descriptor_index(ds@) == hid_descriptor_index(ds@.take(i as int)),
        decreases i,
    {
        assert(ds@.take(i as int).drop_last() =~= ds@.take(i - 1));
        if ds[i - 1].descriptor_type == 0x21 {
            return Some(i - 1);
        }
        i = i - 1;
    }
    assert(ds@.take(0) =~= Seq::<GenericDescriptor>::empty());
    None
}

/// A class request to an interface: request type 0x21 (host to device,
/// class, interface), the request, value, index and length.
#[derive(Debug, Clone, Copy, PartialEq, Eq, Structural)]
pub struct SetupRequest {
    pub request_type: u8,
    pub request: u8,
    pub value: u16,
    pub index: u16,
    pub length: u16,
}

/// A keyboard speaking the boot protocol: the device's address and speed,
/// its interface, the endpoint it reports on and how often, and the key
/// held down last.
pub struct Keyboard {
    pub address: u8,
    pub speed: PortSpeed,
    pub interface_number: u8,
    pub protocol: HidProtocol,
    pub hid_descriptor: HidDescriptor,
    pub poll_interval: u8,
    pub endpoint_num: u8,
    pub current_active_key: Option<Key>,
}

/// Whether an endpoint reports to the host by interrupt.
pub open spec fn is_interrupt_in(e: EndpointDescriptor) -> bool {
    e.direction == EndpointDirection::In && e.transfer_type == EndpointTransferType::Interrupt
}

/// `k` is the lowest number of an interrupt-IN endpoint among `es`.
pub open spec fn first_interrupt_in(es: Map<u8, EndpointDescriptor>, k: u8) -> bool {
    &&& es.contains_key(k) && is_interrupt_in(es[k])
    &&& forall|j: u8| j < k && #[trigger] es.contains_key(j) ==> !is_interrupt_in(es[j])
}

/// Some endpoint among `es` is an interrupt-IN one.
pub open spec fn has_interrupt_in(es: Map<u8, EndpointDescriptor>) -> bool {
    exists|k: u8| es.contains_key(k) && is_interrupt_in(es[k])
}

/// The class requests that set a keyboard up: SET_PROTOCOL selecting the
/// boot protocol, then SET_REPORT with the one-byte output report (all LEDs
/// off).
pub struct KeyboardSetup {
    pub set_protocol: SetupRequest,
    pub set_report: SetupRequest,
    pub report: Vec<u8>,
}

/// The last known key of a report.
pub open spec fn most_recent_key(keys: Seq<Key>) -> Option<Key>
    decreases keys.len(),
{
    if keys.len() == 0 {
        None
    } else if keys.last() != Key::Unknown {
        Some(keys.last())
    } else {
        most_recent_key(keys.drop_last())
    }
}

impl Keyboard {
    /// A keyboard on `interface` of the device at `address`: it reports on
    /// its lowest-numbered interrupt-IN endpoint, at that endpoint's
    /// interval. Only the boot protocol is supported, and such an endpoint
    /// must exist. Gives the requests that set it up.
    pub fn new(
        interface: &InterfaceDescriptor,
        address: u8,
        speed: PortSpeed,
        protocol: HidProtocol,
        hid_descriptor: HidDescriptor,
    ) -> (r: (Keyboard, KeyboardSetup))
        requires
            protocol == HidProtocol::Boot,
            has_interrupt_in(interface.endpoints@),
        ensures
            first_interrupt_in(interface.endpoints@, r.0.endpoint_num),
            r.0.poll_interval == interface.endpoints@[r.0.endpoint_num].interval,
            r.0.address == address,
            r.0.speed == speed,
            r.0.interface_number == interface.interface_number,
            r.0.protocol == protocol,
            r.0.current_active_key is None,
            r.1.set_protocol == (SetupRequest {
                request_type: 0x21, request: 0x0B, value: 0, index: interface.interface_number as u16, length: 0,
            }),
            r.1.set_report == (SetupRequest {
                request_type: 0x21, request: 0x09, value: 0x0200, index: interface.interface_number as u16, length: 1,
            }),
            r.1.report@ == seq![0u8],
    {
        let es = &interface.endpoints;
        let mut k: u16 = 0;
        let mut found: Option<(u8, EndpointDescriptor)> = None;
        while k < 256
            invariant_except_break
                found is None,
                forall|j: u8| j < k && #[trigger] es@.contains_key(j) ==> !is_interrupt_in(es@[j]),
            invariant
                k <= 256,
                has_interrupt_in(es@),
            ensures
                found matches Some((n, e)) && first_interrupt_in(es@, n) && e == es@[n],
            decreases 256 - k,
        {
            let n = k as u8;
            assert(n == k) by (bit_vector)
                requires
                    k < 256,
                    n == k as u8;
            if let Some(e) = es.get(&n) {
                proof {
                    broadcast use vstd::std_specs::btree::group_btree_axioms;
                    assert(es@.contains_key(n) && es@[n] == *e);
                }
                if e.direction == EndpointDirection::In && e.transfer_type == EndpointTransferType::Interrupt {
                    found = Some((n, *e));
                    break;
                }
            }
            k = k + 1;
        }
        let (num, e) = found.unwrap();
        let iface = interface.interface_number as u16;
        let mut report: Vec<u8> = Vec::new();
        report.push(0);
        (Keyboard {
            address,
            speed,
            interface_number: interface.interface_number,
            protocol,
            hid_descriptor,
            poll_interval: e.interval,
            endpoint_num: num,
            current_active_key: None,
        }, KeyboardSetup {
            set_protocol: SetupRequest { request_type: 0x21, request: 0x0B, value: 0, index: iface, length: 0 },
            set_report: SetupRequest { request_type: 0x21, request: 0x09, value: 0x0200, index: iface, length: 1 },
            report,
        })
    }

    /// The recurring transfer that polls the keyboard: eight-byte reports
    /// from its endpoint at its interval.
    pub fn start_with_callback(&self) -> (t: InterruptTransferDescriptor)
        ensures
            t == (InterruptTransferDescriptor { endpoint: self.endpoint_num, frequency_in_ms: self.poll_interval, length: 8 }),
    {
        InterruptTransferDescriptor { endpoint: self.endpoint_num, frequency_in_ms: self.poll_interval, length: 8 }
    }

    /// Take a report: when its last known key differs from the key held
    /// before, that key is held now, and if it is a character the character
    /// is typed (given back).
    pub fn keypresses(&mut self, kp: &BootKeyPresses) -> (typed: Option<char>)
        ensures
            ({
                let k = most_recent_key(kp.keys@);
                if k != old(self).current_active_key {
                    &&& final(self).current_active_key == k
                    &&& typed == match k { Some(Key::AsciiKey(c)) => Some(c), _ => None::<char> }
                } else {
                    &&& final(self).current_active_key == old(self).current_active_key
                    &&& typed is None
                }
            }),
            final(self).endpoint_num == old(self).endpoint_num,
            final(self).poll_interval == old(self).poll_interval,
    {
        let mut recent: Option<Key> = None;
        let mut i: usize = 0;
        while i < kp.keys.len()
            invariant
                i <= kp.keys@.len(),
                recent == most_recent_key(kp.keys@.take(i as int)),
            decreases kp.keys@.len() - i,
        {
            assert(kp.keys@.take(i + 1).drop_last() =~= kp.keys@.take(i as int));
            let k = kp.keys[i];
            match k {
                Key::Unknown => {},
                _ => { recent = Some(k); },
            }
            i = i + 1;
        }
        assert(kp.keys@.take(i as int) =~= kp.keys@);
        let same = match (recent, self.current_active_key) {
            (None, None) => true,
            (Some(Key::Unknown), Some(Key::Unknown)) => true,
            (Some(Key::AsciiKey(a)), Some(Key::AsciiKey(b))) => a == b,
            _ => false,
        };
        if !same {
            self.current_active_key = recent;
            match recent {
                Some(Key::AsciiKey(c)) => Some(c),
                _ => None,
            }
        } else {
            None
        }
    }
}

/// The same report taken twice types its key at most once.
pub proof fn lemma_keypress_once(before: Option<Key>, keys: Seq<Key>)
    ensures
        ({
            let k = most_recent_key(keys);
            let after = if k != before { k } else { before };
            after == k
        }),
{
}

/// The driver for USB HID interfaces (interface class 3).
pub struct HidDriver {}

impl Driver for HidDriver {
    open spec fn accepts(&self, info: DeviceInfo) -> bool {
        info matches DeviceInfo::Usb { class, .. } && class == 3
    }

    open spec fn accepts_new(&self, info: DeviceInfo) -> bool {
        true
    }

    fn check_device(&self, info: &DeviceInfo) -> (r: bool) {
        match info {
            DeviceInfo::Usb { class, .. } => *class == 3,
            _ => false,
        }
    }

    fn check_new_device(&self, info: &DeviceInfo) -> (r: bool) {
        true
    }
}

/// Register the HID driver.
pub fn init(table: &mut DriverTable)
    ensures
        final(table).drivers@ == old(table).drivers@.push(DriverKind::Hid(HidDriver {})),
{
    register_driver(table, DriverKind::Hid(HidDriver {}));
}

} // verus!
