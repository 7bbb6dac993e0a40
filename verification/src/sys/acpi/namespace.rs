//! Devices found in the ACPI namespace, and the PCI interrupt routing it
//! describes.
use vstd::prelude::*;
use crate::drivers::pcie::InterruptPin;
use crate::interrupts::InterruptRoute;

verus! {

/// A device of the ACPI namespace: its node, hardware and unique
/// identifiers where it has them, and its absolute path.
#[derive(Clone)]
pub struct SystemBusDeviceIdentifier {
    pub namespace: u64,
    pub hid: Option<String>,
    pub uid: Option<String>,
    pub path: String,
}

fn clone_opt_string(s: &Option<String>) -> (r: Option<String>)
    ensures
        r == *s,
{
    match s {
        Some(x) => Some(x.clone()),
        None => None,
    }
}

impl SystemBusDeviceIdentifier {
    /// A copy of the identifier.
    pub fn duplicate(&self) -> (r: SystemBusDeviceIdentifier)
        ensures
            r == *self,
    {
        SystemBusDeviceIdentifier {
            namespace: self.namespace,
            hid: clone_opt_string(&self.hid),
            uid: clone_opt_string(&self.uid),
            path: self.path.clone(),
        }
    }
}

/// Whether a namespace node is worth offering to the drivers: one with
/// neither a hardware nor a unique identifier (a PCI link, say) is not.
pub fn should_enumerate(ident: &SystemBusDeviceIdentifier) -> (r: bool)
    ensures
        r == (ident.hid is Some || ident.uid is Some),
{
    ident.hid.is_some() || ident.uid.is_some()
}

/// A PCI interrupt source: a device, one of its functions or all of them
/// (`None`), and an interrupt pin.
#[derive(Debug)]
pub struct PciInterruptFunction {
    pub device: u8,
    pub function: Option<u8>,
    pub pin: InterruptPin,
}

/// Two interrupt sources match when device and pin agree and the functions
/// agree or either stands for all functions.
pub open spec fn interrupt_functions_match(a: PciInterruptFunction, b: PciInterruptFunction) -> bool {
    &&& a.device == b.device
    &&& a.pin == b.pin
    &&& (a.function == b.function || a.function is None || b.function is None)
}

impl PartialEq for PciInterruptFunction {
    fn eq(&self, other: &Self) -> (r: bool) {
        let functions_equal = match (self.function, other.function) {
            (Some(a), Some(b)) => a == b,
            _ => true,
        };
        let pins_equal = match (&self.pin, &other.pin) {
            (InterruptPin::IntA, InterruptPin::IntA) => true,
            (InterruptPin::IntB, InterruptPin::IntB) => true,
            (InterruptPin::IntC, InterruptPin::IntC) => true,
            (InterruptPin::IntD, InterruptPin::IntD) => true,
            _ => false,
        };
        self.device == other.device && pins_equal && functions_equal
    }
}

impl vstd::std_specs::cmp::PartialEqSpecImpl for PciInterruptFunction {
    open spec fn obeys_eq_spec() -> bool {
        true
    }

    open spec fn eq_spec(&self, other: &Self) -> bool {
        interrupt_functions_match(*self, *other)
    }
}

/// Decode one entry of a `_PRT` routing table: the device in the high half
/// of `address`, the function in the low half (0xFFFF meaning all
/// functions), and the pin numbered from 0.
pub fn decode_routing_function(address: u64, pin: u8) -> (r: PciInterruptFunction)
    requires
        pin < 4,
    ensures
        r.device == (address / 0x1_0000) % 0x100,
        r.function == (if address % 0x1_0000 == 0xFFFF { None } else { Some((address % 0x100) as u8) }),
        r.pin == InterruptPin::from_routing_index(pin),
{
    let all_functions = (address & 0xFFFF) == 0xFFFF;
    proof {
        assert((address & 0xFFFF) == address % 0x1_0000) by (bit_vector);
        assert((address as u8) == address % 0x100) by (bit_vector);
        assert(((address >> 16) as u8) == (address / 0x1_0000) % 0x100) by (bit_vector);
    }
    let function = if all_functions { None } else { Some(address as u8) };
    let device = (address >> 16) as u8;
    let p = match pin {
        0 => InterruptPin::IntA,
        1 => InterruptPin::IntB,
        2 => InterruptPin::IntC,
        _ => InterruptPin::IntD,
    };
    PciInterruptFunction { device, function, pin: p }
}

/// Where a routing entry sends its interrupts: a global system interrupt
/// when `index` is non-zero, else the first line of the interrupt link,
/// which must fit in eight bits.
pub fn routing_target(index: u32, link_irq: Option<u32>) -> (r: Option<InterruptRoute>)
    requires
        index == 0 ==> (link_irq is Some && link_irq.unwrap() < 256),
    ensures
        index != 0 ==> r == Some(InterruptRoute::Gsi(index)),
        index == 0 ==> r == Some(InterruptRoute::Irq(link_irq.unwrap() as u8)),
{
    if index != 0 {
        Some(InterruptRoute::Gsi(index))
    } else {
        match link_irq {
            Some(irq) => Some(InterruptRoute::Irq(irq as u8)),
            None => None,
        }
    }
}

/// The route of the first entry of a routing table that matches `f`.
pub open spec fn route_lookup(table: Seq<(PciInterruptFunction, InterruptRoute)>, f: PciInterruptFunction) -> Option<InterruptRoute>
    decreases table.len(),
{
    if table.len() == 0 {
        None
    } else if interrupt_functions_match(table[0].0, f) {
        Some(table[0].1)
    } else {
        route_lookup(table.drop_first(), f)
    }
}

/// Look up the route of an interrupt source in a routing table.
pub fn lookup_route(table: &Vec<(PciInterruptFunction, InterruptRoute)>, f: &PciInterruptFunction) -> (r: Option<InterruptRoute>)
    ensures
        r == route_lookup(table@, *f),
{
    let mut i: usize = 0;
    assert(table@.skip(0) =~= table@);
    while i < table.len()
        invariant
            i <= table@.len(),
            route_lookup(table@, *f) == route_lookup(table@.skip(i as int), *f),
        decreases table@.len() - i,
    {
        assert(table@.skip(i as int).drop_first() =~= table@.skip(i + 1));
        let e = &table[i];
        if e.0.device == f.device && e.0.pin.same(&f.pin) && match (e.0.function, f.function) {
            (Some(a), Some(b)) => a == b,
            _ => true,
        } {
            return Some(e.1);
        }
        i = i + 1;
    }
    assert(table@.skip(i as int) =~= Seq::<(PciInterruptFunction, InterruptRoute)>::empty());
    None
}

} // verus!
