//! The UHCI USB host controller driver.
use vstd::prelude::*;
use crate::driver::{DeviceInfo, Driver, DriverKind, DriverTable, register_driver};
use crate::drivers::usb::usb::{Port, PortSpeed, PortStatus, TransferType, UsbTransfer, UsbHCI};

verus! {

/// The driver for UHCI controllers (PCI class 0x0C, subclass 0x03,
/// interface 0x00).
pub struct UhciDriver {}

impl Driver for UhciDriver {
    open spec fn accepts(&self, info: DeviceInfo) -> bool {
        info matches DeviceInfo::Pci(p) && p.base_class == 0x0C && p.sub_class == 0x03 && p.interface == 0x00
    }

    open spec fn accepts_new(&self, info: DeviceInfo) -> bool {
        true
    }

    fn check_device(&self, info: &DeviceInfo) -> (r: bool) {
        match info {
            DeviceInfo::Pci(p) => p.base_class == 0x0C && p.sub_class == 0x03 && p.interface == 0x00,
            _ => false,
        }
    }

    fn check_new_device(&self, info: &DeviceInfo) -> (r: bool) {
        true
    }
}

/// Packet identifiers.
pub const PID_SETUP: u8 = 0x2D;
pub const PID_IN: u8 = 0x69;
pub const PID_OUT: u8 = 0xE1;

#[derive(Debug, Clone, Copy, PartialEq, Eq, Structural)]
pub enum TransferDescriptorType {
    Setup,
    Status,
    Data,
}

/// What a transfer descriptor asks of the controller: speed, the encoded
/// maximum length (length minus one, 0x7FF for none), data toggle,
/// endpoint, device address, packet identifier and buffer.
#[derive(Debug, Clone, Copy, PartialEq, Eq, Structural)]
pub struct TdSpec {
    pub low_speed: bool,
    pub max_length: u16,
    pub toggle: bool,
    pub endpoint: u8,
    pub address: u8,
    pub packet_id: u8,
    pub buffer: u64,
}

/// The encoded length of a packet of `len` bytes.
pub open spec fn length_field(len: u16) -> u16 {
    if len != 0 { (len - 1) as u16 } else { 0x7FF }
}

/// Bytes per data packet: 8 at low speed, 1023 at full speed.
pub open spec fn data_per_xfer(speed: PortSpeed) -> int {
    match speed {
        PortSpeed::LowSpeed => 8,
        PortSpeed::FullSpeed => 1023,
    }
}

/// The data stage of `length` bytes at `base`, in packets of `per` bytes;
/// the toggles alternate from `first_toggle`.
pub open spec fn data_stage(low: bool, endpoint: u8, address: u8, pid: u8, base: u64, length: int, per: int, first_toggle: bool) -> Seq<TdSpec> {
    let n = if length <= 0 { 0 } else { (length + per - 1) / per };
    Seq::new(n as nat, |i: int| TdSpec {
        low_speed: low,
        max_length: length_field((if length - i * per < per { length - i * per } else { per }) as u16),
        toggle: if i % 2 == 0 { first_toggle } else { !first_toggle },
        endpoint,
        address,
        packet_id: pid,
        buffer: (base + i * per) as u64,
    })
}

pub open spec fn setup_td(low: bool, endpoint: u8, address: u8, setup_phys: u64) -> TdSpec {
    TdSpec { low_speed: low, max_length: 7, toggle: false, endpoint, address, packet_id: PID_SETUP, buffer: setup_phys }
}

pub open spec fn status_td(low: bool, endpoint: u8, address: u8, pid: u8) -> TdSpec {
    TdSpec { low_speed: low, max_length: 0x7FF, toggle: true, endpoint, address, packet_id: pid, buffer: 0 }
}

/// The transfer descriptors of a transfer, in order: for a control read a
/// SETUP packet, IN data packets into `buffer_phys` and an OUT status
/// packet; for a control write a SETUP packet, OUT data packets from
/// `buffer_phys` and an IN status packet; for a control transfer without
/// data a SETUP and an IN status packet; for an interrupt read one IN packet.
pub open spec fn transfer_tds(address: u8, t: UsbTransfer, setup_phys: u64, buffer_phys: u64) -> Seq<TdSpec> {
    let low = t.speed == PortSpeed::LowSpeed;
    let per = data_per_xfer(t.speed);
    let ep = t.endpoint;
    match t.transfer_type {
        TransferType::ControlRead(p) =>
            seq![setup_td(low, ep, address, setup_phys)]
                + data_stage(low, ep, address, PID_IN, buffer_phys, p.length as int, per, true)
                + seq![status_td(low, ep, address, PID_OUT)],
        TransferType::ControlWrite(w) =>
            seq![setup_td(low, ep, address, setup_phys)]
                + data_stage(low, ep, address, PID_OUT, buffer_phys, w.setup_packet.length as int, per, true)
                + seq![status_td(low, ep, address, PID_IN)],
        TransferType::ControlNoData(_) =>
            seq![setup_td(low, ep, address, setup_phys), status_td(low, ep, address, PID_IN)],
        TransferType::InterruptIn(d) =>
            seq![TdSpec { low_speed: low, max_length: length_field(d.length as u16), toggle: false, endpoint: ep,
                address, packet_id: PID_IN, buffer: buffer_phys }],
        _ => Seq::empty(),
    }
}

/// Whether a transfer can be built: a kind the controller driver handles,
/// and data packets that fit the eight-bit length the driver passes on.
pub open spec fn transfer_supported(t: UsbTransfer) -> bool {
    let small = t.speed == PortSpeed::LowSpeed;
    match t.transfer_type {
        TransferType::ControlRead(p) => small || p.length <= 255,
        TransferType::ControlWrite(w) => small || w.setup_packet.length <= 255,
        TransferType::ControlNoData(_) => true,
        TransferType::InterruptIn(_) => true,
        _ => false,
    }
}

fn push_data_stage(out: &mut Vec<TdSpec>, low: bool, endpoint: u8, address: u8, pid: u8, base: u64, length: u16, per: u16, first_toggle: bool)
    requires
        per == 8 || per == 1023,
        per == 1023 ==> length <= 255,
        base + length <= u64::MAX,
    ensures
        final(out)@ == old(out)@ + data_stage(low, endpoint, address, pid, base, length as int, per as int, first_toggle),
{
    let ghost o = out@;
    let ghost full = data_stage(low, endpoint, address, pid, base, length as int, per as int, first_toggle);
    let mut offset: u16 = 0;
    let mut i: u16 = 0;
    proof {
        if length == 0 {
            assert(full.len() == 0);
        } else {
            let ll = length as int;
            let pp = per as int;
            assert((ll + pp - 1) / pp >= 1) by (nonlinear_arith)
                requires ll >= 1, pp > 0;
        }
    }
    while offset < length
        invariant
            per == 8 || per == 1023,
            per == 1023 ==> length <= 255,
            base + length <= u64::MAX,
            offset <= length,
            offset < length ==> offset == i * per,
            offset < length ==> i < full.len(),
            offset == length ==> i == full.len(),
            out@ == o + full.take(i as int),
            full == data_stage(low, endpoint, address, pid, base, length as int, per as int, first_toggle),
            i <= full.len(),
        decreases length - offset,
    {
        let chunk: u16 = if length - offset < per { length - offset } else { per };
        let len_field: u16 = if chunk != 0 { chunk - 1 } else { 0x7FF };
        let toggle = if i % 2 == 0 { first_toggle } else { !first_toggle };
        let td = TdSpec {
            low_speed: low,
            max_length: len_field,
            toggle,
            endpoint,
            address,
            packet_id: pid,
            buffer: base + offset as u64,
        };
        assert(td == full[i as int]);
        out.push(td);
        assert(full.take(i + 1) =~= full.take(i as int).push(td));
        proof {
            let ll = length as int;
            let pp = per as int;
            let ii = i as int;
            let n = (ll + pp - 1) / pp;
            assert(full.len() == n);
            assert((ii + 1) * pp < ll ==> ii + 1 < n) by (nonlinear_arith)
                requires n == (ll + pp - 1) / pp, pp > 0;
        }
        i = i + 1;
        if length - offset <= per {
            offset = length;
            proof {
                let ll = length as int;
                let pp = per as int;
                let ii = i as int;
                let n = (ll + pp - 1) / pp;
                assert(ii >= n) by (nonlinear_arith)
                    requires n == (ll + pp - 1) / pp, pp > 0, (ii - 1) * pp + pp >= ll, ii >= 1;
                assert(i == full.len());
            }
        } else {
            offset = offset + per;
        }
    }
    proof {
        assert(full.take(i as int) =~= full);
    }
}

/// Lay out the transfer descriptors of a transfer to the device at
/// `address`, with its setup packet at `setup_phys` and its data at
/// `buffer_phys`.
pub fn build_transfer(address: u8, t: &UsbTransfer, setup_phys: u64, buffer_phys: u64) -> (r: Vec<TdSpec>)
    requires
        transfer_supported(*t),
        buffer_phys + 0x1_0000 <= u64::MAX,
    ensures
        r@ == transfer_tds(address, *t, setup_phys, buffer_phys),
{
    let low = match t.speed { PortSpeed::LowSpeed => true, PortSpeed::FullSpeed => false };
    let per: u16 = if low { 8 } else { 1023 };
    let ep = t.endpoint;
    let mut out: Vec<TdSpec> = Vec::new();
    let setup = TdSpec { low_speed: low, max_length: 7, toggle: false, endpoint: ep, address, packet_id: PID_SETUP, buffer: setup_phys };
    match &t.transfer_type {
        TransferType::ControlRead(p) => {
            out.push(setup);
            push_data_stage(&mut out, low, ep, address, PID_IN, buffer_phys, p.length, per, true);
            out.push(TdSpec { low_speed: low, max_length: 0x7FF, toggle: true, endpoint: ep, address, packet_id: PID_OUT, buffer: 0 });
        },
        TransferType::ControlWrite(w) => {
            out.push(setup);
            push_data_stage(&mut out, low, ep, address, PID_OUT, buffer_phys, w.setup_packet.length, per, true);
            out.push(TdSpec { low_speed: low, max_length: 0x7FF, toggle: true, endpoint: ep, address, packet_id: PID_IN, buffer: 0 });
        },
        TransferType::ControlNoData(_) => {
            out.push(setup);
            out.push(TdSpec { low_speed: low, max_length: 0x7FF, toggle: true, endpoint: ep, address, packet_id: PID_IN, buffer: 0 });
        },
        TransferType::InterruptIn(d) => {
            let len = d.length as u16;
            let lf: u16 = if len != 0 { len - 1 } else { 0x7FF };
            out.push(TdSpec { low_speed: low, max_length: lf, toggle: false, endpoint: ep, address, packet_id: PID_IN, buffer: buffer_phys });
        },
        _ => {},
    }
    assert(out@ =~= transfer_tds(address, *t, setup_phys, buffer_phys));
    out
}

/// The four double words of a transfer descriptor: link pointer (to the
/// next descriptor, depth first, or terminating), control and status
/// (three retries, speed, interrupt on completion, active), token (length,
/// toggle, endpoint, address, packet identifier) and buffer.
pub open spec fn td_words(td: TdSpec, link: u32, terminate: bool, ioc: bool) -> (u32, u32, u32, u32) {
    ((link & 0xFFFF_FFF0u32) | 4u32 | (if terminate { 1u32 } else { 0u32 }),
     (0x1800_0000u32 | (if td.low_speed { 0x0400_0000u32 } else { 0u32 })
        | (if ioc { 0x0100_0000u32 } else { 0u32 }) | 0x0080_0000u32),
     (((td.max_length as u32) << 21u32) | (if td.toggle { 0x8_0000u32 } else { 0u32 })
        | ((td.endpoint as u32) << 15u32) | ((td.address as u32) << 8u32) | (td.packet_id as u32)),
     td.buffer as u32)
}

/// Whether a descriptor's fields fit their bit fields.
pub open spec fn td_fits(td: TdSpec) -> bool {
    td.max_length < 0x800 && td.endpoint < 16 && td.address < 128 && td.buffer < 0x1_0000_0000
}

/// Encode one transfer descriptor.
pub fn encode_td(td: &TdSpec, link: u32, terminate: bool, ioc: bool) -> (r: (u32, u32, u32, u32))
    requires
        td_fits(*td),
    ensures
        r == td_words(*td, link, terminate, ioc),
{
    let w0 = (link & 0xFFFF_FFF0) | 4 | (if terminate { 1u32 } else { 0u32 });
    let w1 = 0x1800_0000u32 | (if td.low_speed { 0x0400_0000u32 } else { 0u32 })
        | (if ioc { 0x0100_0000u32 } else { 0u32 }) | 0x0080_0000u32;
    let w2 = ((td.max_length as u32) << 21u32) | (if td.toggle { 0x8_0000u32 } else { 0u32 })
        | ((td.endpoint as u32) << 15u32) | ((td.address as u32) << 8u32) | (td.packet_id as u32);
    (w0, w1, w2, td.buffer as u32)
}

/// A transfer laid out in memory: each descriptor links to the next, the
/// last terminates the queue and, unless the transfer is polled, raises an
/// interrupt; the queue head's element pointer names the first descriptor.
pub open spec fn chain_words(tds: Seq<TdSpec>, phys: Seq<u32>, poll: bool) -> Seq<(u32, u32, u32, u32)> {
    Seq::new(tds.len(), |k: int|
        if k == tds.len() - 1 { td_words(tds[k], 0, true, !poll) } else { td_words(tds[k], phys[k + 1], false, false) })
}

/// Encode the descriptors of a transfer placed at `phys`, and the queue
/// head's element pointer.
pub fn finalise_and_get_qh(tds: &Vec<TdSpec>, phys: &Vec<u32>, poll: bool) -> (r: (Vec<(u32, u32, u32, u32)>, u32))
    requires
        tds@.len() >= 1,
        phys@.len() == tds@.len(),
        forall|k: int| 0 <= k < tds@.len() ==> td_fits(#[trigger] tds@[k]),
    ensures
        r.0@ == chain_words(tds@, phys@, poll),
        r.1 == phys@[0] & 0xFFFF_FFF0u32,
{
    let n = tds.len();
    let mut out: Vec<(u32, u32, u32, u32)> = Vec::new();
    let mut k: usize = 0;
    while k < n
        invariant
            n == tds@.len(),
            phys@.len() == n,
            forall|j: int| 0 <= j < tds@.len() ==> td_fits(#[trigger] tds@[j]),
            k <= n,
            out@ == chain_words(tds@, phys@, poll).take(k as int),
        decreases n - k,
    {
        let w = if k == n - 1 {
            encode_td(&tds[k], 0, true, !poll)
        } else {
            encode_td(&tds[k], phys[k + 1], false, false)
        };
        out.push(w);
        assert(out@ =~= chain_words(tds@, phys@, poll).take(k + 1));
        k = k + 1;
    }
    assert(chain_words(tds@, phys@, poll).take(n as int) =~= chain_words(tds@, phys@, poll));
    (out, phys[0] & 0xFFFF_FFF0)
}

/// How a transfer stands, from its descriptors' status bits.
#[derive(Debug, Clone, Copy, PartialEq, Eq, Structural)]
pub enum TransferStatus {
    Active,
    Done,
    Stalled,
    DataBufferError,
    Babble,
    Nak,
    CrcTimeout,
    Bitstuff,
}

pub open spec fn status_bit(w: u32, b: u32) -> bool {
    (w >> b) & 1 == 1
}

/// The error a descriptor reports, if any, most serious first.
pub open spec fn td_error(w: u32) -> Option<TransferStatus> {
    if status_bit(w, 21) { Some(TransferStatus::DataBufferError) }
    else if status_bit(w, 20) { Some(TransferStatus::Babble) }
    else if status_bit(w, 19) && !status_bit(w, 23) { Some(TransferStatus::Nak) }
    else if status_bit(w, 18) { Some(TransferStatus::CrcTimeout) }
    else if status_bit(w, 17) { Some(TransferStatus::Bitstuff) }
    else if status_bit(w, 22) { Some(TransferStatus::Stalled) }
    else { None }
}

/// The status of a transfer whose descriptors' control words are `ws`: the
/// first error and the descriptor reporting it; else active while any is
/// active; else done.
pub open spec fn transfer_status(ws: Seq<u32>) -> (TransferStatus, int)
    decreases ws.len(),
{
    if ws.len() == 0 {
        (TransferStatus::Done, 0)
    } else {
        match td_error(ws[0]) {
            Some(e) => (e, 0),
            None => {
                let (s, i) = transfer_status(ws.drop_first());
                if s == TransferStatus::Active || s == TransferStatus::Done {
                    (if status_bit(ws[0], 23) || s == TransferStatus::Active { TransferStatus::Active } else { TransferStatus::Done }, 0)
                } else {
                    (s, i + 1)
                }
            },
        }
    }
}

fn bit_of(w: u32, b: u32) -> (r: bool)
    requires
        b < 32,
    ensures
        r == status_bit(w, b),
{
    (w >> b) & 1 == 1
}

/// The status of a transfer from its descriptors' control words.
pub fn get_status(ws: &Vec<u32>) -> (r: (TransferStatus, usize))
    ensures
        r.0 == transfer_status(ws@).0,
        r.1 == transfer_status(ws@).1,
{
    let n = ws.len();
    let mut any_active = false;
    let mut k: usize = 0;
    assert(ws@.skip(0) =~= ws@);
    while k < n
        invariant
            n == ws@.len(),
            k <= n,
            any_active == exists|j: int| 0 <= j < k && status_bit(ws@[j], 23),
            forall|j: int| 0 <= j < k ==> td_error(#[trigger] ws@[j]) is None,
            transfer_status(ws@) == ({
                let (s, i) = transfer_status(ws@.skip(k as int));
                if s == TransferStatus::Active || s == TransferStatus::Done {
                    (if any_active || s == TransferStatus::Active { TransferStatus::Active } else { TransferStatus::Done }, 0int)
                } else {
                    (s, i + k)
                }
            }),
        decreases n - k,
    {
        let w = ws[k];
        let ghost tail = ws@.skip(k as int);
        assert(tail.drop_first() =~= ws@.skip(k + 1));
        assert(tail[0] == w);
        if bit_of(w, 21) { return (TransferStatus::DataBufferError, k); }
        if bit_of(w, 20) { return (TransferStatus::Babble, k); }
        if bit_of(w, 19) && !bit_of(w, 23) { return (TransferStatus::Nak, k); }
        if bit_of(w, 18) { return (TransferStatus::CrcTimeout, k); }
        if bit_of(w, 17) { return (TransferStatus::Bitstuff, k); }
        if bit_of(w, 22) { return (TransferStatus::Stalled, k); }
        if bit_of(w, 23) {
            any_active = true;
        }
        k = k + 1;
    }
    assert(ws@.skip(k as int) =~= Seq::<u32>::empty());
    if any_active { (TransferStatus::Active, 0) } else { (TransferStatus::Done, 0) }
}

/// The controller's port status and control bits.
pub const PORT_ALWAYS_1: u16 = 0x80;
pub const PORT_CONNECTION_STATUS: u16 = 0x01;

/// A UHCI controller: its I/O base, which ports have a device, the next
/// device address to hand out, and its recurring transfers (by the
/// descriptors' physical addresses).
pub struct UhciBus {
    pub base_io: u16,
    pub port1: bool,
    pub port2: bool,
    pub next_address: u8,
    pub recurring_transfers: Vec<Vec<u32>>,
}

/// Whether a port register reading shows a port: not all ones, and the
/// always-set bit set.
pub open spec fn port_present(sc: u16) -> bool {
    sc != 0xFFFF && sc & PORT_ALWAYS_1 != 0
}

impl UhciBus {
    /// A controller at `uhci_base` whose port registers read `sc1`, `sc2`
    /// before it was started and `sc1_running`, `sc2_running` after: a port
    /// has a device when it is present and shows a connection. Addresses
    /// are handed out from 1.
    pub fn new(uhci_base: u16, sc1: u16, sc2: u16, sc1_running: u16, sc2_running: u16) -> (r: UhciBus)
        ensures
            r.base_io == uhci_base,
            r.port1 == (port_present(sc1) && sc1_running & PORT_CONNECTION_STATUS != 0),
            r.port2 == (port_present(sc2) && sc2_running & PORT_CONNECTION_STATUS != 0),
            r.next_address == 1,
            r.recurring_transfers@.len() == 0,
    {
        let p1 = sc1 != 0xFFFF && sc1 & PORT_ALWAYS_1 != 0;
        let p2 = sc2 != 0xFFFF && sc2 & PORT_ALWAYS_1 != 0;
        UhciBus {
            base_io: uhci_base,
            port1: sc1_running & PORT_CONNECTION_STATUS != 0 && p1,
            port2: sc2_running & PORT_CONNECTION_STATUS != 0 && p2,
            next_address: 1,
            recurring_transfers: Vec::new(),
        }
    }

    /// Forget a port whose reset failed.
    pub fn mark_reset_failed(&mut self, port: u8)
        ensures
            final(self).port1 == (old(self).port1 && port != 1),
            final(self).port2 == (old(self).port2 && port != 2),
            final(self).next_address == old(self).next_address,
    {
        if port == 1 { self.port1 = false; }
        if port == 2 { self.port2 = false; }
    }

    /// The frames a recurring interrupt transfer polled every `frequency_in_ms`
    /// milliseconds is queued in: every `frequency_in_ms`-th of the 1024.
    pub fn interrupt_frames(&self, frequency_in_ms: u8) -> (r: Vec<u16>)
        requires
            frequency_in_ms > 0,
        ensures
            r@.len() == (1023int / (frequency_in_ms as int)) + 1,
            forall|k: int| 0 <= k < r@.len() ==> #[trigger] r@[k] == k * frequency_in_ms,
    {
        let f = frequency_in_ms as u16;
        let mut out: Vec<u16> = Vec::new();
        let mut i: u16 = 0;
        let mut k: u16 = 0;
        while i < 1024
            invariant
                f == frequency_in_ms,
                f > 0,
                i == k * f,
                i < 1024 + 256,
                k <= i || k == 0,
                k > 0 ==> (k - 1) * f < 1024,
                out@.len() == k,
                forall|j: int| 0 <= j < k ==> #[trigger] out@[j] == j * f,
            decreases 1024 + 256 - i,
        {
            out.push(i);
            proof {
                let kk = k as int;
                let ff = f as int;
                assert((kk + 1) * ff == kk * ff + ff) by (nonlinear_arith);
                assert(kk + 1 <= (kk + 1) * ff) by (nonlinear_arith) requires ff >= 1, kk >= 0;
            }
            i = i + f;
            k = k + 1;
        }
        proof {
            let ff = f as int;
            let kk = k as int;
            assert(kk == 1023int / ff + 1) by (nonlinear_arith)
                requires kk * ff >= 1024, (kk - 1) * ff < 1024, ff > 0, kk >= 1;
        }
        out
    }
}

impl UsbHCI for UhciBus {
    /// The ports with a device, both reported as low speed; the second
    /// port is reported disconnected.
    fn get_ports(&self) -> (r: Vec<Port>)
        ensures
            r@ == (if self.port1 { seq![Port { num: 1, status: PortStatus::Connected, speed: PortSpeed::LowSpeed }] } else { Seq::empty() })
                + (if self.port2 { seq![Port { num: 2, status: PortStatus::Disconnected, speed: PortSpeed::LowSpeed }] } else { Seq::empty() }),
    {
        let mut ports: Vec<Port> = Vec::new();
        if self.port1 {
            ports.push(Port { num: 1, status: PortStatus::Connected, speed: PortSpeed::LowSpeed });
        }
        if self.port2 {
            ports.push(Port { num: 2, status: PortStatus::Disconnected, speed: PortSpeed::LowSpeed });
        }
        assert(ports@ =~= (if self.port1 { seq![Port { num: 1, status: PortStatus::Connected, speed: PortSpeed::LowSpeed }] } else { Seq::empty() })
                + (if self.port2 { seq![Port { num: 2, status: PortStatus::Disconnected, speed: PortSpeed::LowSpeed }] } else { Seq::empty() }));
        ports
    }

    /// The next device address; addresses run out at 255.
    fn get_free_address(&mut self) -> (r: u8)
        ensures
            r == old(self).next_address,
            final(self).next_address == if old(self).next_address < 255 {
                (old(self).next_address + 1) as u8
            } else {
                old(self).next_address
            },
            final(self).base_io == old(self).base_io,
            final(self).port1 == old(self).port1,
            final(self).port2 == old(self).port2,
            final(self).recurring_transfers@ == old(self).recurring_transfers@,
    {
        let addr = self.next_address;
        if self.next_address < 255 {
            self.next_address = self.next_address + 1;
        }
        addr
    }
}

/// What the controller's interrupt status asks for.
#[derive(Debug, Clone, Copy, PartialEq, Eq, Structural)]
pub enum InterruptAction {
    /// Transfers completed: restart the finished recurring transfers.
    RestartCompleted,
    /// A transfer failed: report the failing descriptors and stop.
    ReportErrors,
    /// An error without a completion: stop.
    Halt,
    /// Nothing to do.
    Nothing,
}

/// The action for a status register reading: bit 0 is the interrupt, bit 1
/// the error interrupt.
pub fn interrupt_action(status: u16) -> (r: InterruptAction)
    ensures
        r == if status & 1 == 1 && status & 2 != 2 { InterruptAction::RestartCompleted }
            else if status & 1 == 1 { InterruptAction::ReportErrors }
            else if status & 2 == 2 { InterruptAction::Halt }
            else { InterruptAction::Nothing },
{
    let usbint = status & 1 == 1;
    let usberr = status & 2 == 2;
    if usbint && !usberr {
        InterruptAction::RestartCompleted
    } else if usbint && usberr {
        InterruptAction::ReportErrors
    } else if usberr {
        InterruptAction::Halt
    } else {
        InterruptAction::Nothing
    }
}

/// Register the UHCI driver.
pub fn init(table: &mut DriverTable)
    ensures
        final(table).drivers@ == old(table).drivers@.push(DriverKind::Uhci(UhciDriver {})),
{
    register_driver(table, DriverKind::Uhci(UhciDriver {}));
}

} // verus!
