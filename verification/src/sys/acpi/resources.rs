//! Resources an ACPI device reports: interrupt lines and fixed memory ranges.
use vstd::prelude::*;

verus! {

/// A resource of an ACPI device.
pub enum Resource {
    Irq {
        triggering: u8,
        polarity: u8,
        sharing: bool,
        wake_capability: bool,
        irqs: Vec<u32>,
    },
    FixedMemory32 {
        write_status: u8,
        address: u32,
        length: u32,
    },
}

/// Index of the first fixed 32-bit memory range among `rs`, if any.
pub open spec fn first_fixed_memory_index(rs: Seq<Resource>) -> Option<int>
    decreases rs.len(),
{
    if rs.len() == 0 {
        None
    } else if rs[0] is FixedMemory32 {
        Some(0)
    } else {
        match first_fixed_memory_index(rs.drop_first()) {
            Some(i) => Some(i + 1),
            None => None,
        }
    }
}

/// The base address and length of the first fixed 32-bit memory range among
/// the resources, as the HPET driver picks its register block.
pub fn first_fixed_memory(rs: &Vec<Resource>) -> (r: Option<(u32, u32)>)
    ensures
        match first_fixed_memory_index(rs@) {
            None => r is None,
            Some(i) => 0 <= i < rs@.len() && (rs@[i] matches Resource::FixedMemory32 { address, length, .. }
                && r == Some((address, length))),
        },
{
    let mut i: usize = 0;
    assert(rs@.skip(0) =~= rs@);
    while i < rs.len()
        invariant
            i <= rs@.len(),
            first_fixed_memory_index(rs@) == match first_fixed_memory_index(rs@.skip(i as int)) {
                Some(j) => Some(j + i),
                None => None::<int>,
            },
        decreases rs@.len() - i,
    {
        assert(rs@.skip(i as int).drop_first() =~= rs@.skip(i + 1));
        match &rs[i] {
            Resource::FixedMemory32 { address, length, .. } => {
                return Some((*address, *length));
            },
            _ => {},
        }
        i = i + 1;
    }
    assert(rs@.skip(i as int) =~= Seq::<Resource>::empty());
    None
}

/// Index of the first interrupt resource among `rs`, if any.
pub open spec fn first_irq_index(rs: Seq<Resource>) -> Option<int>
    decreases rs.len(),
{
    if rs.len() == 0 {
        None
    } else if rs[0] is Irq {
        Some(0)
    } else {
        match first_irq_index(rs.drop_first()) {
            Some(i) => Some(i + 1),
            None => None,
        }
    }
}

/// The first interrupt line of the first interrupt resource, as a PCI
/// interrupt link is routed; `None` when there is no interrupt resource or
/// it lists no line.
pub fn first_irq(rs: &Vec<Resource>) -> (r: Option<u32>)
    ensures
        match first_irq_index(rs@) {
            None => r is None,
            Some(i) => 0 <= i < rs@.len() && (rs@[i] matches Resource::Irq { irqs, .. }
                && r == (if irqs@.len() > 0 { Some(irqs@[0]) } else { None })),
        },
{
    let mut i: usize = 0;
    assert(rs@.skip(0) =~= rs@);
    while i < rs.len()
        invariant
            i <= rs@.len(),
            first_irq_index(rs@) == match first_irq_index(rs@.skip(i as int)) {
                Some(j) => Some(j + i),
                None => None::<int>,
            },
        decreases rs@.len() - i,
    {
        assert(rs@.skip(i as int).drop_first() =~= rs@.skip(i + 1));
        match &rs[i] {
            Resource::Irq { irqs, .. } => {
                if irqs.len() > 0 {
                    return Some(irqs[0]);
                } else {
                    return None;
                }
            },
            _ => {},
        }
        i = i + 1;
    }
    assert(rs@.skip(i as int) =~= Seq::<Resource>::empty());
    None
}

} // verus!
