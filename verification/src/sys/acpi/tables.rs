//! Access to the firmware's ACPI tables: physical regions are reached
//! through the kernel's direct map, and the parsed tables are shared.
use vstd::prelude::*;
use crate::memory::{is_canonical, get_ptr_in_hhdm};

verus! {

/// Parsed ACPI tables shared between processors.
pub struct SyncAcpiTables<T>(pub T);

impl<T> SyncAcpiTables<T> {
    pub fn new(tables: T) -> (r: Self)
        ensures
            r.0 == tables,
    {
        SyncAcpiTables(tables)
    }

    /// The tables.
    pub fn tables(&self) -> (r: &T)
        ensures
            *r == self.0,
    {
        &self.0
    }
}

/// How the ACPI tables reach physical memory: through the direct map at
/// `hhdm_offset`.
#[derive(Debug, Clone, Copy, PartialEq, Eq, Structural)]
pub struct VenixAcpiHandler {
    pub hhdm_offset: u64,
}

/// A mapped physical region: its physical start, the virtual address of
/// that start, and its length as asked and as mapped.
#[derive(Debug, Clone, Copy, PartialEq, Eq, Structural)]
pub struct PhysicalMapping {
    pub physical_start: usize,
    pub virtual_start: u64,
    pub region_length: usize,
    pub mapped_length: usize,
}

impl VenixAcpiHandler {
    /// Map `size` bytes at `phys_addr`: nothing is mapped anew, the region is
    /// read through the direct map. The address must be canonical and not
    /// null (the kernel panics otherwise).
    pub fn map_physical_region(&self, phys_addr: usize, size: usize) -> (r: PhysicalMapping)
        requires
            phys_addr + self.hhdm_offset <= u64::MAX,
            is_canonical((phys_addr + self.hhdm_offset) as u64),
            phys_addr + self.hhdm_offset != 0,
        ensures
            r == (PhysicalMapping {
                physical_start: phys_addr,
                virtual_start: (phys_addr + self.hhdm_offset) as u64,
                region_length: size,
                mapped_length: size,
            }),
    {
        let virt = get_ptr_in_hhdm(self.hhdm_offset, phys_addr as u64);
        PhysicalMapping { physical_start: phys_addr, virtual_start: virt, region_length: size, mapped_length: size }
    }
}

} // verus!
