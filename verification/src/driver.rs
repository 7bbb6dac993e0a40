//! The driver registry: which driver takes a newly found device, and the
//! device file system drivers publish their devices in.
use vstd::prelude::*;
use crate::sys::acpi::namespace::{SystemBusDeviceIdentifier, should_enumerate};
use crate::sys::syscall::CanonicalError;
use crate::drivers::pcie::{PciDeviceType, PciDriver};
use crate::drivers::hpet::HpetDriver;
use crate::drivers::ide::IdeDriver;
use crate::drivers::usb::uhci::UhciDriver;
use crate::drivers::usbhid::HidDriver;

verus! {

/// What is known of a device when it is found: an ACPI namespace device, a
/// PCI function, or a USB interface with its class, subclass and protocol.
#[derive(Clone)]
pub enum DeviceInfo {
    SystemBus(SystemBusDeviceIdentifier),
    Pci(PciDeviceType),
    Usb { class: u8, subclass: u8, protocol: u8 },
}

/// Something that identifies a device to the drivers.
pub trait DeviceTypeIdentifier {
    fn device_info(&self) -> DeviceInfo;
}

impl DeviceTypeIdentifier for SystemBusDeviceIdentifier {
    fn device_info(&self) -> (r: DeviceInfo)
        ensures
            r == DeviceInfo::SystemBus(*self),
    {
        DeviceInfo::SystemBus(self.duplicate())
    }
}

impl DeviceTypeIdentifier for PciDeviceType {
    fn device_info(&self) -> (r: DeviceInfo)
        ensures
            r == DeviceInfo::Pci(*self),
    {
        DeviceInfo::Pci(*self)
    }
}

/// A device driver: which devices it takes, and whether it takes one more.
pub trait Driver {
    spec fn accepts(&self, info: DeviceInfo) -> bool;

    spec fn accepts_new(&self, info: DeviceInfo) -> bool;

    /// Whether the device is one this driver drives.
    fn check_device(&self, info: &DeviceInfo) -> (r: bool)
        ensures
            r == self.accepts(*info),
    ;

    /// Whether the driver takes this device now.
    fn check_new_device(&self, info: &DeviceInfo) -> (r: bool)
        ensures
            r == self.accepts_new(*info),
    ;
}

/// A bus whose devices can be listed.
pub trait Bus {
    fn name(&self) -> String;
}

/// The drivers the kernel has.
pub enum DriverKind {
    Hpet(HpetDriver),
    Pci(PciDriver),
    Ide(IdeDriver),
    Uhci(UhciDriver),
    Hid(HidDriver),
}

/// Whether the driver takes the device: it drives devices of its kind and
/// takes one more now.
pub open spec fn takes(d: DriverKind, info: DeviceInfo) -> bool {
    match d {
        DriverKind::Hpet(x) => x.accepts(info) && x.accepts_new(info),
        DriverKind::Pci(x) => x.accepts(info) && x.accepts_new(info),
        DriverKind::Ide(x) => x.accepts(info) && x.accepts_new(info),
        DriverKind::Uhci(x) => x.accepts(info) && x.accepts_new(info),
        DriverKind::Hid(x) => x.accepts(info) && x.accepts_new(info),
    }
}

impl DriverKind {
    pub fn takes_device(&self, info: &DeviceInfo) -> (r: bool)
        ensures
            r == takes(*self, *info),
    {
        match self {
            DriverKind::Hpet(x) => x.check_device(info) && x.check_new_device(info),
            DriverKind::Pci(x) => x.check_device(info) && x.check_new_device(info),
            DriverKind::Ide(x) => x.check_device(info) && x.check_new_device(info),
            DriverKind::Uhci(x) => x.check_device(info) && x.check_new_device(info),
            DriverKind::Hid(x) => x.check_device(info) && x.check_new_device(info),
        }
    }
}

/// The registered drivers, in registration order.
pub struct DriverTable {
    pub drivers: Vec<DriverKind>,
}

/// Index of the first driver among `ds` that takes the device.
pub open spec fn first_taker(ds: Seq<DriverKind>, info: DeviceInfo) -> Option<int>
    decreases ds.len(),
{
    if ds.len() == 0 {
        None
    } else if takes(ds[0], info) {
        Some(0)
    } else {
        match first_taker(ds.drop_first(), info) {
            Some(i) => Some(i + 1),
            None => None,
        }
    }
}

proof fn lemma_first_taker(ds: Seq<DriverKind>, info: DeviceInfo)
    ensures
        first_taker(ds, info) matches Some(i) ==> 0 <= i < ds.len() && takes(ds[i], info)
            && forall|j: int| 0 <= j < i ==> !takes(#[trigger] ds[j], info),
        first_taker(ds, info) is None ==> forall|j: int| 0 <= j < ds.len() ==> !takes(#[trigger] ds[j], info),
    decreases ds.len(),
{
    if ds.len() > 0 {
        lemma_first_taker(ds.drop_first(), info);
        assert forall|j: int| 1 <= j < ds.len() implies ds[j] == ds.drop_first()[j - 1] by {}
    }
}

proof fn lemma_first_taker_at(ds: Seq<DriverKind>, info: DeviceInfo, i: int)
    requires
        0 <= i < ds.len(),
        takes(ds[i], info),
        forall|j: int| 0 <= j < i ==> !takes(#[trigger] ds[j], info),
    ensures
        first_taker(ds, info) == Some(i),
    decreases i,
{
    if i > 0 {
        assert forall|j: int| 0 <= j < i - 1 implies !takes(#[trigger] ds.drop_first()[j], info) by {
            assert(ds.drop_first()[j] == ds[j + 1]);
        }
        lemma_first_taker_at(ds.drop_first(), info, i - 1);
    }
}

impl DriverTable {
    /// An empty table.
    pub fn new() -> (t: DriverTable)
        ensures
            t.drivers@.len() == 0,
    {
        DriverTable { drivers: Vec::new() }
    }
}

/// Add a driver after those already registered.
pub fn register_driver(table: &mut DriverTable, driver: DriverKind)
    ensures
        final(table).drivers@ == old(table).drivers@.push(driver),
{
    table.drivers.push(driver);
}

/// The driver to initialise a newly found device: the first registered one
/// that drives it and takes one more. `None` leaves the device alone.
pub fn enumerate_device(table: &DriverTable, info: &DeviceInfo) -> (r: Option<usize>)
    ensures
        r matches Some(i) ==> Some(i as int) == first_taker(table.drivers@, *info),
        r is None <==> first_taker(table.drivers@, *info) is None,
{
    proof { lemma_first_taker(table.drivers@, *info); }
    let mut i: usize = 0;
    while i < table.drivers.len()
        invariant
            i <= table.drivers@.len(),
            forall|j: int| 0 <= j < i ==> !takes(#[trigger] table.drivers@[j], *info),
            first_taker(table.drivers@, *info) matches Some(k) ==> i <= k < table.drivers@.len()
                && takes(table.drivers@[k], *info),
        decreases table.drivers@.len() - i,
    {
        if table.drivers[i].takes_device(info) {
            proof { lemma_first_taker_at(table.drivers@, *info, i as int); }
            return Some(i);
        }
        i = i + 1;
    }
    None
}

/// For each device of the ACPI namespace in order, skipping those with
/// neither hardware nor unique identifier, the driver that takes it:
/// pairs of device index and driver index.
pub open spec fn configured(table: Seq<DriverKind>, devices: Seq<SystemBusDeviceIdentifier>) -> Seq<(int, int)>
    decreases devices.len(),
{
    if devices.len() == 0 {
        Seq::empty()
    } else {
        let last = devices.len() - 1;
        let rest = configured(table, devices.drop_last());
        let d = devices[last];
        if (d.hid is Some || d.uid is Some) && first_taker(table, DeviceInfo::SystemBus(d)) is Some {
            rest.push((last, first_taker(table, DeviceInfo::SystemBus(d)).unwrap()))
        } else {
            rest
        }
    }
}

/// Offer every device of the ACPI namespace to the drivers: which driver
/// initialises which device.
pub fn configure_drivers(table: &DriverTable, devices: &Vec<SystemBusDeviceIdentifier>) -> (r: Vec<(usize, usize)>)
    ensures
        r@.len() == configured(table.drivers@, devices@).len(),
        forall|k: int| 0 <= k < r@.len() ==> (#[trigger] r@[k]).0 == configured(table.drivers@, devices@)[k].0
            && r@[k].1 == configured(table.drivers@, devices@)[k].1,
{
    let mut out: Vec<(usize, usize)> = Vec::new();
    let mut i: usize = 0;
    while i < devices.len()
        invariant
            i <= devices@.len(),
            out@.len() == configured(table.drivers@, devices@.take(i as int)).len(),
            forall|k: int| 0 <= k < out@.len() ==> (#[trigger] out@[k]).0 == configured(table.drivers@, devices@.take(i as int))[k].0
                && out@[k].1 == configured(table.drivers@, devices@.take(i as int))[k].1,
        decreases devices@.len() - i,
    {
        let ghost before = configured(table.drivers@, devices@.take(i as int));
        assert(devices@.take(i + 1).drop_last() =~= devices@.take(i as int));
        let d = &devices[i];
        if should_enumerate(d) {
            let info = DeviceInfo::SystemBus(d.duplicate());
            assert(info == DeviceInfo::SystemBus(devices@[i as int]));
            match enumerate_device(table, &info) {
                Some(j) => {
                    out.push((i, j));
                },
                None => {},
            }
        }
        i = i + 1;
    }
    assert(devices@.take(devices@.len() as int) =~= devices@);
    out
}

/// The device file system: device files by name.
pub struct DevFS {
    pub file_table: Vec<(String, u64)>,
}

/// The device registered under `name`: the first entry with that name.
pub open spec fn devfs_lookup(entries: Seq<(String, u64)>, name: Seq<char>) -> Option<u64>
    decreases entries.len(),
{
    if entries.len() == 0 {
        None
    } else if entries[0].0@ == name {
        Some(entries[0].1)
    } else {
        devfs_lookup(entries.drop_first(), name)
    }
}

impl DevFS {
    /// An empty device file system.
    pub fn new() -> (r: DevFS)
        ensures
            forall|name: Seq<char>| devfs_lookup(r.file_table@, name) is None,
    {
        DevFS { file_table: Vec::new() }
    }

    /// Publish the device `vnode` under `mount`, replacing what was there.
    pub fn add_device(&mut self, vnode: u64, mount: String)
        ensures
            devfs_lookup(final(self).file_table@, mount@) == Some(vnode),
            forall|name: Seq<char>| name != mount@ ==>
                devfs_lookup(final(self).file_table@, name) == devfs_lookup(old(self).file_table@, name),
    {
        let ghost old_t = self.file_table@;
        let n = self.file_table.len();
        let mut i: usize = 0;
        while i < n
            invariant_except_break
                n == self.file_table@.len(),
                self.file_table@ == old_t,
                i <= n,
                forall|j: int| 0 <= j < i ==> (#[trigger] old_t[j]).0@ != mount@,
            ensures
                n == self.file_table@.len(),
                self.file_table@ == old_t,
                i <= n,
                forall|j: int| 0 <= j < i ==> (#[trigger] old_t[j]).0@ != mount@,
                i < n ==> old_t[i as int].0@ == mount@,
            decreases n - i,
        {
            if self.file_table[i].0 == mount {
                break;
            }
            i = i + 1;
        }
        if i < n {
            let ghost key = mount;
            let ghost newt = old_t.update(i as int, (key, vnode));
            proof {
                assert forall|name: Seq<char>| name != key@ implies
                    devfs_lookup(newt, name) == devfs_lookup(old_t, name) by {
                    lemma_devfs_replace(old_t, i as int, key, vnode, name);
                }
                lemma_devfs_replace(old_t, i as int, key, vnode, key@);
            }
            self.file_table.set(i, (mount, vnode));
            assert(self.file_table@ == newt);
        } else {
            let ghost e = (mount, vnode);
            proof {
                assert forall|name: Seq<char>| name != e.0@ implies
                    devfs_lookup(old_t.push(e), name) == devfs_lookup(old_t, name) by {
                    lemma_devfs_push(old_t, e, name);
                }
                lemma_devfs_push(old_t, e, e.0@);
            }
            self.file_table.push((mount, vnode));
            assert(self.file_table@ == old_t.push(e));
        }
    }

    /// The device file `name`; `Access` when there is none.
    pub fn lookup(&self, name: &String) -> (r: Result<u64, CanonicalError>)
        ensures
            match devfs_lookup(self.file_table@, name@) {
                Some(v) => r == Ok::<u64, CanonicalError>(v),
                None => r == Err::<u64, CanonicalError>(CanonicalError::Access),
            },
    {
        let mut i: usize = 0;
        assert(self.file_table@.skip(0) =~= self.file_table@);
        while i < self.file_table.len()
            invariant
                i <= self.file_table@.len(),
                devfs_lookup(self.file_table@, name@) == devfs_lookup(self.file_table@.skip(i as int), name@),
            decreases self.file_table@.len() - i,
        {
            assert(self.file_table@.skip(i as int).drop_first() =~= self.file_table@.skip(i + 1));
            if self.file_table[i].0 == *name {
                return Ok(self.file_table[i].1);
            }
            i = i + 1;
        }
        assert(self.file_table@.skip(i as int) =~= Seq::<(String, u64)>::empty());
        Err(CanonicalError::Access)
    }
}

proof fn lemma_devfs_replace(t: Seq<(String, u64)>, i: int, k: String, v: u64, name: Seq<char>)
    requires
        0 <= i < t.len(),
        k@ == t[i].0@,
        forall|j: int| 0 <= j < i ==> (#[trigger] t[j]).0@ != k@,
    ensures
        name == k@ ==> devfs_lookup(t.update(i, (k, v)), name) == Some(v),
        name != k@ ==> devfs_lookup(t.update(i, (k, v)), name) == devfs_lookup(t, name),
    decreases i,
{
    let u = t.update(i, (k, v));
    if i > 0 {
        assert(u.drop_first() =~= t.drop_first().update(i - 1, (k, v)));
        assert(t[0].0@ != k@);
        assert(u[0] == t[0]);
        lemma_devfs_replace(t.drop_first(), i - 1, k, v, name);
    } else {
        assert(u.drop_first() =~= t.drop_first());
        assert(u[0] == (k, v));
    }
}

proof fn lemma_devfs_push(t: Seq<(String, u64)>, e: (String, u64), name: Seq<char>)
    requires
        forall|j: int| 0 <= j < t.len() ==> (#[trigger] t[j]).0@ != e.0@,
    ensures
        name == e.0@ ==> devfs_lookup(t.push(e), name) == Some(e.1),
        name != e.0@ ==> devfs_lookup(t.push(e), name) == devfs_lookup(t, name),
    decreases t.len(),
{
    if t.len() > 0 {
        assert(t.push(e).drop_first() =~= t.drop_first().push(e));
        assert(t[0].0@ != e.0@);
        assert(t.push(e)[0] == t[0]);
        lemma_devfs_push(t.drop_first(), e, name);
    } else {
        assert(t.push(e).drop_first() =~= Seq::<(String, u64)>::empty());
        assert(t.push(e)[0] == e);
        assert(devfs_lookup(Seq::<(String, u64)>::empty(), name) is None);
    }
}

/// Publish a device file in the device file system.
pub fn register_devfs(devfs: &mut DevFS, mount_point: String, vnode: u64)
    ensures
        devfs_lookup(final(devfs).file_table@, mount_point@) == Some(vnode),
        forall|name: Seq<char>| name != mount_point@ ==>
            devfs_lookup(final(devfs).file_table@, name) == devfs_lookup(old(devfs).file_table@, name),
{
    devfs.add_device(vnode, mount_point);
}

} // verus!
