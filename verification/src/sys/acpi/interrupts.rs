//! Interrupt-controller entries of the ACPI MADT.
use vstd::prelude::*;
use crate::le::{le16, le32, read_u16, read_u32};

verus! {

/// Polarity of an interrupt line.
#[derive(Debug, Clone, Copy, PartialEq, Eq, Structural)]
pub enum Polarity {
    Conforming,
    ActiveHigh,
    ActiveLow,
}

/// Trigger mode of an interrupt line.
#[derive(Debug, Clone, Copy, PartialEq, Eq, Structural)]
pub enum TriggerMode {
    Conforming,
    Edge,
    Level,
}

/// A MADT I/O APIC entry.
#[allow(non_camel_case_types)]
#[derive(Debug, Clone, Copy, PartialEq, Eq, Structural)]
pub struct acpi_madt_ioapic {
    pub id: u8,
    pub address: u32,
    pub gsi_base: u32,
}

/// A MADT interrupt source override: legacy IRQ `source` on `bus` arrives
/// on global system interrupt `gsi`, with the line described by `flags`.
#[allow(non_camel_case_types)]
#[derive(Debug, Clone, Copy, PartialEq, Eq, Structural)]
pub struct acpi_madt_interrupt_source_override {
    pub bus: u8,
    pub source: u8,
    pub gsi: u32,
    pub flags: u16,
}

pub open spec fn polarity_of(flags: u16) -> Option<Polarity> {
    let p = flags % 4;
    if p == 0 {
        Some(Polarity::Conforming)
    } else if p == 1 {
        Some(Polarity::ActiveHigh)
    } else if p == 3 {
        Some(Polarity::ActiveLow)
    } else {
        None
    }
}

pub open spec fn trigger_mode_of(flags: u16) -> Option<TriggerMode> {
    let t = (flags / 4) % 4;
    if t == 0 {
        Some(TriggerMode::Conforming)
    } else if t == 1 {
        Some(TriggerMode::Edge)
    } else if t == 3 {
        Some(TriggerMode::Level)
    } else {
        None
    }
}

impl acpi_madt_interrupt_source_override {
    /// The polarity in bits 0-1 of the flags; `None` for the reserved value 2.
    pub fn polarity(&self) -> (r: Option<Polarity>)
        ensures
            r == polarity_of(self.flags),
    {
        let f = self.flags;
        let p = f & 0b11;
        assert(p == f % 4) by (bit_vector)
            requires p == f & 0b11;
        if p == 0 {
            Some(Polarity::Conforming)
        } else if p == 1 {
            Some(Polarity::ActiveHigh)
        } else if p == 3 {
            Some(Polarity::ActiveLow)
        } else {
            None
        }
    }

    /// The trigger mode in bits 2-3 of the flags; `None` for the reserved
    /// value 2.
    pub fn trigger_mode(&self) -> (r: Option<TriggerMode>)
        ensures
            r == trigger_mode_of(self.flags),
    {
        let f = self.flags;
        let t = (f >> 2) & 0b11;
        assert(t == (f / 4) % 4) by (bit_vector)
            requires t == (f >> 2) & 0b11;
        if t == 0 {
            Some(TriggerMode::Conforming)
        } else if t == 1 {
            Some(TriggerMode::Edge)
        } else if t == 3 {
            Some(TriggerMode::Level)
        } else {
            None
        }
    }
}

/// The I/O APICs and interrupt source overrides listed by the MADT, in table
/// order.
pub struct IoApicData {
    pub io_apics: Vec<acpi_madt_ioapic>,
    pub isos: Vec<acpi_madt_interrupt_source_override>,
}

/// Offset of the first MADT entry: the table header (36 bytes), the local
/// APIC address and the flags.
pub const MADT_ENTRIES_START: usize = 44;

pub open spec fn ioapic_at(t: Seq<u8>, off: int) -> acpi_madt_ioapic {
    acpi_madt_ioapic { id: t[off + 2], address: le32(t, off + 4) as u32, gsi_base: le32(t, off + 8) as u32 }
}

pub open spec fn iso_at(t: Seq<u8>, off: int) -> acpi_madt_interrupt_source_override {
    acpi_madt_interrupt_source_override {
        bus: t[off + 2],
        source: t[off + 3],
        gsi: le32(t, off + 4) as u32,
        flags: le16(t, off + 8) as u16,
    }
}

/// Whether the walk over the entries stops at `off`: no room for an entry
/// header, an entry shorter than its header, or an entry that runs past the
/// table.
pub open spec fn madt_stops(t: Seq<u8>, off: int) -> bool {
    ||| off + 2 > t.len()
    ||| t[off + 1] < 2
    ||| off + t[off + 1] > t.len()
    ||| (t[off] == 1 && off + 12 > t.len())
    ||| (t[off] == 2 && off + 10 > t.len())
}

/// The I/O APIC entries from offset `off` on.
pub open spec fn madt_ioapics_from(t: Seq<u8>, off: int) -> Seq<acpi_madt_ioapic>
    decreases t.len() - off,
{
    if off < 0 || madt_stops(t, off) {
        Seq::empty()
    } else {
        let rest = madt_ioapics_from(t, off + t[off + 1]);
        if t[off] == 1 { seq![ioapic_at(t, off)] + rest } else { rest }
    }
}

/// The interrupt source overrides from offset `off` on.
pub open spec fn madt_isos_from(t: Seq<u8>, off: int) -> Seq<acpi_madt_interrupt_source_override>
    decreases t.len() - off,
{
    if off < 0 || madt_stops(t, off) {
        Seq::empty()
    } else {
        let rest = madt_isos_from(t, off + t[off + 1]);
        if t[off] == 2 { seq![iso_at(t, off)] + rest } else { rest }
    }
}

/// Walk the entries of a MADT (`table` holds the whole table, header
/// included) and collect its I/O APICs and interrupt source overrides; other
/// entries are skipped by their length. An entry that would reach past the
/// end of the table ends the walk.
pub fn iterate_madt_ioapics(table: &[u8]) -> (r: IoApicData)
    ensures
        r.io_apics@ == madt_ioapics_from(table@, MADT_ENTRIES_START as int),
        r.isos@ == madt_isos_from(table@, MADT_ENTRIES_START as int),
{
    let n = table.len();
    let mut ret = IoApicData { io_apics: Vec::new(), isos: Vec::new() };
    let mut off: usize = MADT_ENTRIES_START;
    loop
        invariant
            n == table@.len(),
            off >= MADT_ENTRIES_START,
            ret.io_apics@ + madt_ioapics_from(table@, off as int)
                == madt_ioapics_from(table@, MADT_ENTRIES_START as int),
            ret.isos@ + madt_isos_from(table@, off as int)
                == madt_isos_from(table@, MADT_ENTRIES_START as int),
        ensures
            madt_stops(table@, off as int),
            ret.io_apics@ + madt_ioapics_from(table@, off as int)
                == madt_ioapics_from(table@, MADT_ENTRIES_START as int),
            ret.isos@ + madt_isos_from(table@, off as int)
                == madt_isos_from(table@, MADT_ENTRIES_START as int),
        decreases n + 1 - off,
    {
        if off >= n || n - off < 2 {
            break;
        }
        let kind = table[off];
        let len = table[off + 1] as usize;
        if len < 2 || len > n - off || (kind == 1 && n - off < 12) || (kind == 2 && n - off < 10) {
            break;
        }
        proof {
            assert(!madt_stops(table@, off as int));
        }
        let ghost old_ap = ret.io_apics@;
        let ghost old_is = ret.isos@;
        if kind == 1 {
            let e = acpi_madt_ioapic {
                id: table[off + 2],
                address: read_u32(table, off + 4),
                gsi_base: read_u32(table, off + 8),
            };
            ret.io_apics.push(e);
            proof {
                assert(old_ap.push(e) + madt_ioapics_from(table@, off + len)
                    =~= old_ap + (seq![e] + madt_ioapics_from(table@, off + len)));
            }
        } else if kind == 2 {
            let e = acpi_madt_interrupt_source_override {
                bus: table[off + 2],
                source: table[off + 3],
                gsi: read_u32(table, off + 4),
                flags: read_u16(table, off + 8),
            };
            ret.isos.push(e);
            proof {
                assert(old_is.push(e) + madt_isos_from(table@, off + len)
                    =~= old_is + (seq![e] + madt_isos_from(table@, off + len)));
            }
        }
        off = off + len;
    }
    proof {
        assert(madt_ioapics_from(table@, off as int) =~= Seq::empty());
        assert(madt_isos_from(table@, off as int) =~= Seq::empty());
        assert(ret.io_apics@ =~= ret.io_apics@ + Seq::<acpi_madt_ioapic>::empty());
        assert(ret.isos@ =~= ret.isos@ + Seq::<acpi_madt_interrupt_source_override>::empty());
    }
    ret
}

} // verus!
