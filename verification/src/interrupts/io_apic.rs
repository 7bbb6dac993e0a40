//! I/O APICs: which global system interrupts each one serves, the
//! redirection-table register values that route one to a vector, and the
//! legacy IRQ routing set up at boot.
use vstd::prelude::*;
use std::collections::BTreeMap;
use crate::sys::acpi::interrupts::{
    Polarity, TriggerMode, IoApicData, acpi_madt_ioapic, acpi_madt_interrupt_source_override,
    polarity_of, trigger_mode_of,
};
use crate::interrupts::IRQ_BASE;

verus! {

/// A value to write to the I/O APIC register `index`.
#[derive(Debug, Clone, Copy, PartialEq, Eq, Structural)]
pub struct RegisterWrite {
    pub index: u8,
    pub value: u32,
}

/// One I/O APIC: where its registers are, the first global system interrupt
/// it serves, the value of its version register, and the vector each
/// interrupt it routes was given; in proofs only, the mappings made since
/// it was set up, oldest first.
pub struct IoApic {
    pub base_addr: u32,
    pub global_system_interrupt_base: u32,
    pub version: u32,
    pub gsi_to_irq: BTreeMap<u32, u8>,
    pub mapped: Ghost<Seq<(u32, u8)>>,
}

/// Mask bit of a redirection entry: set while the interrupt is disabled.
pub const IOAPIC_INTMASK_DISABLED: u32 = 0x1_0000;
pub const IOAPIC_TRIGGER_LEVEL: u32 = 0x8000;
pub const IOAPIC_POLARITY_LOW: u32 = 0x2000;

pub open spec fn max_entries_of(version: u32) -> int {
    ((version / 0x1_0000) % 0x100) as int
}

pub open spec fn trigger_bits(t: TriggerMode) -> u32 {
    match t {
        TriggerMode::Level => IOAPIC_TRIGGER_LEVEL,
        _ => 0,
    }
}

pub open spec fn polarity_bits(p: Polarity) -> u32 {
    match p {
        Polarity::ActiveLow => IOAPIC_POLARITY_LOW,
        _ => 0,
    }
}

/// The low half of a redirection entry for `vector`: masked, fixed delivery,
/// physical destination, with the trigger mode and polarity bits.
pub open spec fn redirection_low(t: TriggerMode, p: Polarity, vector: u8) -> u32 {
    (IOAPIC_INTMASK_DISABLED + trigger_bits(t) + polarity_bits(p) + vector) as u32
}

/// Register index of the low half of the redirection entry for `gsi`.
pub open spec fn redirection_index(base: u32, gsi: u32) -> int {
    ((gsi - base) % 256) * 2 + 0x10
}

impl IoApic {
    pub open spec fn max_entries(&self) -> int {
        max_entries_of(self.version)
    }

    pub open spec fn contains(&self, gsi: u32) -> bool {
        self.global_system_interrupt_base <= gsi <= self.global_system_interrupt_base + self.max_entries()
    }

    /// Whether `gsi` can be routed through this I/O APIC: it is served here
    /// and its redirection entry has a register index below 256.
    pub open spec fn routable(&self, gsi: u32) -> bool {
        self.global_system_interrupt_base <= gsi && (gsi - self.global_system_interrupt_base) % 256 < 0x78
    }

    /// An I/O APIC at `base_addr` serving interrupts from
    /// `global_system_interrupt_base` on, whose version register reads
    /// `version`; nothing routed yet.
    pub fn new(base_addr: u32, global_system_interrupt_base: u32, version: u32) -> (r: IoApic)
        ensures
            r.base_addr == base_addr,
            r.global_system_interrupt_base == global_system_interrupt_base,
            r.version == version,
            r.gsi_to_irq@ == Map::<u32, u8>::empty(),
            r.mapped@ == Seq::<(u32, u8)>::empty(),
            r.records_mappings(),
    {
        IoApic { base_addr, global_system_interrupt_base, version, gsi_to_irq: BTreeMap::new(), mapped: Ghost(Seq::empty()) }
    }

    /// The routing table holds what the mappings made since set-up left.
    pub open spec fn records_mappings(&self) -> bool {
        self.gsi_to_irq@ == after_mappings(Map::empty(), self.mapped@)
    }

    /// The highest redirection entry: bits 16-23 of the version register.
    pub fn get_max_redirection_table_entries(&self) -> (r: u8)
        ensures
            r == self.max_entries(),
    {
        let ver = self.version;
        let r = ((ver & 0x00FF_0000) >> 16) as u8;
        assert(((ver & 0x00FF_0000) >> 16) as u8 == (ver / 0x1_0000) % 0x100) by (bit_vector);
        r
    }

    /// Whether `gsi` lies in the range this I/O APIC serves.
    pub fn contains_gsi(&self, gsi: u32) -> (r: bool)
        requires
            self.global_system_interrupt_base <= gsi ==> self.global_system_interrupt_base + self.max_entries() <= u32::MAX,
        ensures
            r == self.contains(gsi),
    {
        self.global_system_interrupt_base <= gsi
            && gsi <= self.global_system_interrupt_base + self.get_max_redirection_table_entries() as u32
    }

    /// Route `gsi` to `vector` on the local APIC `dest_apic`: remember the
    /// vector, and give the two register writes of its redirection entry,
    /// low half (masked) first.
    pub fn map_interrupt(
        &mut self,
        gsi: u32,
        dest_apic: u32,
        trigger_mode: TriggerMode,
        polarity: Polarity,
        vector: u8,
    ) -> (r: (RegisterWrite, RegisterWrite))
        requires
            old(self).routable(gsi),
        ensures
            final(self).gsi_to_irq@ == old(self).gsi_to_irq@.insert(gsi, vector),
            final(self).mapped@ == old(self).mapped@.push((gsi, vector)),
            old(self).records_mappings() ==> final(self).records_mappings(),
            final(self).base_addr == old(self).base_addr,
            final(self).global_system_interrupt_base == old(self).global_system_interrupt_base,
            final(self).version == old(self).version,
            r.0.index == redirection_index(old(self).global_system_interrupt_base, gsi),
            r.0.value == redirection_low(trigger_mode, polarity, vector),
            r.1.index == r.0.index + 1,
            r.1.value == (dest_apic % 256) * 0x100_0000,
    {
        self.gsi_to_irq.insert(gsi, vector);
        proof {
            let ghost before = self.mapped@;
            self.mapped@ = self.mapped@.push((gsi, vector));
            assert(self.mapped@.drop_last() =~= before);
        }
        let hi = dest_apic << 24u32;
        assert(dest_apic << 24u32 == (dest_apic % 256) * 0x100_0000) by (bit_vector);
        let t: u32 = match trigger_mode {
            TriggerMode::Level => IOAPIC_TRIGGER_LEVEL,
            _ => 0,
        };
        let p: u32 = match polarity {
            Polarity::ActiveLow => IOAPIC_POLARITY_LOW,
            _ => 0,
        };
        let v = vector as u32;
        let lo = IOAPIC_INTMASK_DISABLED | t | p | v;
        assert(IOAPIC_INTMASK_DISABLED | t | p | v == IOAPIC_INTMASK_DISABLED + t + p + v) by (bit_vector)
            requires
                t == 0 || t == 0x8000u32,
                p == 0 || p == 0x2000u32,
                v < 256;
        let idx = gsi - self.global_system_interrupt_base;
        assert(idx as u8 == idx % 256) by (bit_vector);
        let lo_idx: u8 = (idx as u8) * 2 + 0x10;
        let hi_idx: u8 = (idx as u8) * 2 + 0x11;
        (RegisterWrite { index: lo_idx, value: lo }, RegisterWrite { index: hi_idx, value: hi })
    }

    /// The vector `gsi` was routed to, if it was: the vector of the last
    /// mapping made for it.
    pub fn get_irq_for_gsi(&self, gsi: u32) -> (r: Option<u8>)
        ensures
            r == (if self.gsi_to_irq@.contains_key(gsi) { Some(self.gsi_to_irq@[gsi]) } else { None }),
            self.records_mappings() ==> r == last_mapping(self.mapped@, gsi),
    {
        proof {
            lemma_last_mapping_wins(self.mapped@, gsi);
        }
        match self.gsi_to_irq.get(&gsi) {
            Some(v) => Some(*v),
            None => None,
        }
    }

    /// Unmask `gsi`: given the two halves of its redirection entry as they
    /// read now, the writes that clear the mask bit and keep the rest.
    pub fn enable_gsi(&self, gsi: u32, low_now: u32, high_now: u32) -> (r: (RegisterWrite, RegisterWrite))
        requires
            self.routable(gsi),
        ensures
            r.0.index == redirection_index(self.global_system_interrupt_base, gsi),
            r.0.value == low_now & !IOAPIC_INTMASK_DISABLED,
            r.1.index == r.0.index + 1,
            r.1.value == high_now,
    {
        let idx = gsi - self.global_system_interrupt_base;
        assert(idx as u8 == idx % 256) by (bit_vector);
        let lo_idx: u8 = (idx as u8) * 2 + 0x10;
        let hi_idx: u8 = (idx as u8) * 2 + 0x11;
        (RegisterWrite { index: lo_idx, value: low_now & !IOAPIC_INTMASK_DISABLED },
         RegisterWrite { index: hi_idx, value: high_now })
    }
}

/// The I/O APICs of the machine and the legacy IRQ each global system
/// interrupt stands for.
pub struct IoApics {
    pub apics: Vec<IoApic>,
    pub irq_to_gsi: BTreeMap<u8, u32>,
}

/// Whether the ranges of the I/O APICs can be tested without overflow.
pub open spec fn apics_wf(apics: Seq<IoApic>) -> bool {
    forall|i: int| 0 <= i < apics.len() ==>
        #[trigger] apics[i].global_system_interrupt_base + apics[i].max_entries() <= u32::MAX
}

/// Index of the first I/O APIC serving `gsi`.
pub open spec fn first_containing(apics: Seq<IoApic>, gsi: u32) -> Option<int>
    decreases apics.len(),
{
    if apics.len() == 0 {
        None
    } else if apics[0].contains(gsi) {
        Some(0)
    } else {
        match first_containing(apics.drop_first(), gsi) {
            Some(i) => Some(i + 1),
            None => None,
        }
    }
}

proof fn lemma_first_containing_bounds(apics: Seq<IoApic>, gsi: u32)
    ensures
        first_containing(apics, gsi) matches Some(i) ==> 0 <= i < apics.len() && apics[i].contains(gsi),
    decreases apics.len(),
{
    if apics.len() > 0 {
        lemma_first_containing_bounds(apics.drop_first(), gsi);
    }
}

/// Index of the first I/O APIC serving `gsi`.
pub fn find_io_apic(apics: &Vec<IoApic>, gsi: u32) -> (r: Option<usize>)
    requires
        apics_wf(apics@),
    ensures
        r matches Some(i) ==> first_containing(apics@, gsi) == Some(i as int) && i < apics@.len()
            && apics@[i as int].contains(gsi),
        r is None <==> first_containing(apics@, gsi) is None,
{
    proof { lemma_first_containing_bounds(apics@, gsi); }
    let mut i: usize = 0;
    assert(apics@.skip(0) =~= apics@);
    while i < apics.len()
        invariant
            i <= apics@.len(),
            apics_wf(apics@),
            first_containing(apics@, gsi) == match first_containing(apics@.skip(i as int), gsi) {
                Some(j) => Some(j + i),
                None => None::<int>,
            },
        decreases apics@.len() - i,
    {
        assert(apics@.skip(i as int).drop_first() =~= apics@.skip(i + 1));
        assert(apics@.skip(i as int)[0] == apics@[i as int]);
        if apics[i].contains_gsi(gsi) {
            return Some(i);
        }
        i = i + 1;
    }
    assert(apics@.skip(i as int) =~= Seq::<IoApic>::empty());
    None
}

/// The vector the legacy machinery gave `gsi`, from the first I/O APIC
/// serving it; `None` when that APIC has not routed it.
pub fn get_irq_for_gsi(apics: &IoApics, gsi: u32) -> (r: Option<u8>)
    requires
        apics_wf(apics.apics@),
        first_containing(apics.apics@, gsi) is Some,
    ensures
        ({
            let i = first_containing(apics.apics@, gsi).unwrap();
            let a = apics.apics@[i];
            r == (if a.gsi_to_irq@.contains_key(gsi) { Some(a.gsi_to_irq@[gsi]) } else { None })
        }),
{
    let i = find_io_apic(&apics.apics, gsi).unwrap();
    apics.apics[i].get_irq_for_gsi(gsi)
}

/// A legacy interrupt to route at boot: the global system interrupt, the
/// ISA IRQ it stands for, and the line's trigger mode and polarity.
#[derive(Debug, Clone, Copy, PartialEq, Eq, Structural)]
pub struct LegacyRoute {
    pub gsi: u32,
    pub source: u8,
    pub trigger: TriggerMode,
    pub polarity: Polarity,
}

/// The routes the interrupt source overrides ask for.
pub open spec fn iso_routes(isos: Seq<acpi_madt_interrupt_source_override>) -> Seq<LegacyRoute> {
    Seq::new(isos.len(), |i: int| LegacyRoute {
        gsi: isos[i].gsi,
        source: isos[i].source,
        trigger: trigger_mode_of(isos[i].flags).unwrap(),
        polarity: polarity_of(isos[i].flags).unwrap(),
    })
}

/// Whether legacy IRQ `l` is taken by an override: one moves it, or one
/// sends another IRQ to its global system interrupt.
pub open spec fn overridden(isos: Seq<acpi_madt_interrupt_source_override>, l: int) -> bool {
    exists|i: int| 0 <= i < isos.len() && (isos[i].source == l || isos[i].gsi == l)
}

/// The identity routes of the legacy IRQs from `l` to 15 that no override
/// takes.
pub open spec fn identity_routes_from(isos: Seq<acpi_madt_interrupt_source_override>, l: int) -> Seq<LegacyRoute>
    decreases 16 - l,
{
    if l >= 16 || l < 0 {
        Seq::empty()
    } else {
        (if overridden(isos, l) {
            Seq::empty()
        } else {
            seq![LegacyRoute { gsi: l as u32, source: l as u8, trigger: TriggerMode::Conforming, polarity: Polarity::Conforming }]
        }) + identity_routes_from(isos, l + 1)
    }
}

/// All routes set up at boot: the overrides in table order, then the
/// untouched legacy IRQs in order.
pub open spec fn boot_routes(isos: Seq<acpi_madt_interrupt_source_override>) -> Seq<LegacyRoute> {
    iso_routes(isos) + identity_routes_from(isos, 0)
}

/// Whether the overrides can be honoured: each line description is valid
/// and each IRQ's vector fits in eight bits.
pub open spec fn isos_valid(isos: Seq<acpi_madt_interrupt_source_override>) -> bool {
    forall|i: int| 0 <= i < isos.len() ==> {
        &&& polarity_of(#[trigger] isos[i].flags) is Some
        &&& trigger_mode_of(isos[i].flags) is Some
        &&& isos[i].source + IRQ_BASE <= 255
    }
}

/// Whether every route has an I/O APIC that can take it.
pub open spec fn routes_servable(apics: Seq<IoApic>, routes: Seq<LegacyRoute>) -> bool {
    forall|k: int| 0 <= k < routes.len() ==> {
        &&& #[trigger] first_containing(apics, routes[k].gsi) matches Some(i)
        &&& apics[i].routable(routes[k].gsi)
    }
}

/// The ISA IRQ to global system interrupt table after the first `k` routes.
pub open spec fn irq_table(routes: Seq<LegacyRoute>, k: int) -> Map<u8, u32>
    decreases k,
{
    if k <= 0 { Map::empty() } else { irq_table(routes, k - 1).insert(routes[k - 1].source, routes[k - 1].gsi) }
}

/// The vectors I/O APIC `a` has routed after the first `k` routes.
pub open spec fn apic_table(apics: Seq<IoApic>, routes: Seq<LegacyRoute>, a: int, k: int) -> Map<u32, u8>
    decreases k,
{
    if k <= 0 {
        Map::empty()
    } else {
        let t = apic_table(apics, routes, a, k - 1);
        if first_containing(apics, routes[k - 1].gsi) == Some(a) {
            t.insert(routes[k - 1].gsi, (routes[k - 1].source + IRQ_BASE) as u8)
        } else {
            t
        }
    }
}

/// The register writes of the first `k` routes: for each, the I/O APIC and
/// the low then high half of the redirection entry, sent to `dest`.
pub open spec fn route_writes(apics: Seq<IoApic>, routes: Seq<LegacyRoute>, dest: u32, k: int) -> Seq<(usize, RegisterWrite)>
    decreases k,
{
    if k <= 0 {
        Seq::empty()
    } else {
        let r = routes[k - 1];
        let i = first_containing(apics, r.gsi).unwrap();
        let lo = RegisterWrite {
            index: redirection_index(apics[i].global_system_interrupt_base, r.gsi) as u8,
            value: redirection_low(r.trigger, r.polarity, (r.source + IRQ_BASE) as u8),
        };
        let hi = RegisterWrite { index: (lo.index + 1) as u8, value: ((dest % 256) * 0x100_0000) as u32 };
        route_writes(apics, routes, dest, k - 1).push((i as usize, lo)).push((i as usize, hi))
    }
}

/// The routes to set up at boot.
pub fn legacy_routes(isos: &Vec<acpi_madt_interrupt_source_override>) -> (r: Vec<LegacyRoute>)
    requires
        isos_valid(isos@),
    ensures
        r@ == boot_routes(isos@),
{
    let mut out: Vec<LegacyRoute> = Vec::new();
    let mut i: usize = 0;
    while i < isos.len()
        invariant
            i <= isos@.len(),
            isos_valid(isos@),
            out@ == iso_routes(isos@).take(i as int),
        decreases isos@.len() - i,
    {
        let o = isos[i];
        let t = o.trigger_mode().unwrap();
        let p = o.polarity().unwrap();
        out.push(LegacyRoute { gsi: o.gsi, source: o.source, trigger: t, polarity: p });
        assert(out@ =~= iso_routes(isos@).take(i + 1));
        i = i + 1;
    }
    assert(iso_routes(isos@).take(isos@.len() as int) =~= iso_routes(isos@));
    let ghost head = out@;
    let mut l: u8 = 0;
    assert(identity_routes_from(isos@, 0) =~= Seq::empty() + identity_routes_from(isos@, 0));
    while l < 16
        invariant
            l <= 16,
            head == iso_routes(isos@),
            out@ + identity_routes_from(isos@, l as int) == boot_routes(isos@),
        decreases 16 - l,
    {
        let mut taken = false;
        let mut j: usize = 0;
        while j < isos.len()
            invariant
                j <= isos@.len(),
                l < 16,
                taken == exists|m: int| 0 <= m < j && (isos@[m].source == l || isos@[m].gsi == l),
            decreases isos@.len() - j,
        {
            if isos[j].source == l || isos[j].gsi == l as u32 {
                taken = true;
            }
            j = j + 1;
        }
        let ghost before = out@;
        if !taken {
            out.push(LegacyRoute { gsi: l as u32, source: l, trigger: TriggerMode::Conforming, polarity: Polarity::Conforming });
        }
        assert(before + identity_routes_from(isos@, l as int) =~= out@ + identity_routes_from(isos@, l + 1));
        l = l + 1;
    }
    assert(out@ =~= out@ + identity_routes_from(isos@, 16));
    out
}

/// The I/O APICs the MADT lists, each with the value its version register
/// reads, nothing routed yet.
pub fn new_io_apics(data: &IoApicData, versions: &Vec<u32>) -> (r: Vec<IoApic>)
    requires
        versions@.len() == data.io_apics@.len(),
    ensures
        r@.len() == data.io_apics@.len(),
        forall|i: int| 0 <= i < r@.len() ==> {
            let a = #[trigger] r@[i];
            &&& a.base_addr == data.io_apics@[i].address
            &&& a.global_system_interrupt_base == data.io_apics@[i].gsi_base
            &&& a.version == versions@[i]
            &&& a.gsi_to_irq@ == Map::<u32, u8>::empty()
        },
{
    let mut out: Vec<IoApic> = Vec::new();
    let mut i: usize = 0;
    while i < data.io_apics.len()
        invariant
            versions@.len() == data.io_apics@.len(),
            i <= data.io_apics@.len(),
            out@.len() == i,
            forall|j: int| 0 <= j < i ==> {
                let a = #[trigger] out@[j];
                &&& a.base_addr == data.io_apics@[j].address
                &&& a.global_system_interrupt_base == data.io_apics@[j].gsi_base
                &&& a.version == versions@[j]
                &&& a.gsi_to_irq@ == Map::<u32, u8>::empty()
            },
        decreases data.io_apics@.len() - i,
    {
        let d = data.io_apics[i];
        out.push(IoApic::new(d.address, d.gsi_base, versions[i]));
        i = i + 1;
    }
    out
}

/// Two lists of I/O APICs serving the same ranges.
pub open spec fn same_ranges(a: Seq<IoApic>, b: Seq<IoApic>) -> bool {
    &&& a.len() == b.len()
    &&& forall|j: int| 0 <= j < a.len() ==> #[trigger] a[j].global_system_interrupt_base == b[j].global_system_interrupt_base
        && a[j].version == b[j].version && a[j].base_addr == b[j].base_addr
}

proof fn lemma_first_containing_same(a: Seq<IoApic>, b: Seq<IoApic>, gsi: u32)
    requires
        same_ranges(a, b),
    ensures
        first_containing(a, gsi) == first_containing(b, gsi),
    decreases a.len(),
{
    if a.len() > 0 {
        assert(a[0].global_system_interrupt_base == b[0].global_system_interrupt_base);
        assert(same_ranges(a.drop_first(), b.drop_first())) by {
            assert forall|j: int| 0 <= j < a.len() - 1 implies #[trigger] a.drop_first()[j].global_system_interrupt_base
                == b.drop_first()[j].global_system_interrupt_base && a.drop_first()[j].version == b.drop_first()[j].version
                && a.drop_first()[j].base_addr == b.drop_first()[j].base_addr by {
                assert(a.drop_first()[j] == a[j + 1]);
                assert(b.drop_first()[j] == b[j + 1]);
            }
        }
        lemma_first_containing_same(a.drop_first(), b.drop_first(), gsi);
    }
}

proof fn lemma_identity_routes(isos: Seq<acpi_madt_interrupt_source_override>, l: int)
    ensures
        forall|k: int| 0 <= k < identity_routes_from(isos, l).len() ==>
            (#[trigger] identity_routes_from(isos, l)[k]).source < 16,
    decreases 16 - l,
{
    if 0 <= l < 16 {
        lemma_identity_routes(isos, l + 1);
        let head: Seq<LegacyRoute> = if overridden(isos, l) {
            Seq::empty()
        } else {
            seq![LegacyRoute { gsi: l as u32, source: l as u8, trigger: TriggerMode::Conforming, polarity: Polarity::Conforming }]
        };
        let rest = identity_routes_from(isos, l + 1);
        assert forall|k: int| 0 <= k < (head + rest).len() implies (#[trigger] (head + rest)[k]).source < 16 by {
            if k >= head.len() { assert((head + rest)[k] == rest[k - head.len()]); }
        }
    }
}

/// Route the legacy IRQs to the bootstrap processor's local APIC
/// `bsp_apic_id` on freshly set-up I/O APICs: the overrides first, then
/// every ISA IRQ no override takes, at its own global system interrupt. Each
/// route goes to the first I/O APIC serving its interrupt. Gives the I/O
/// APICs with their routes and ISA IRQ table, and the register writes to
/// make, in order.
#[verifier::spinoff_prover]
pub fn init_io_apics(bsp_apic_id: u64, apics: Vec<IoApic>, isos: &Vec<acpi_madt_interrupt_source_override>)
    -> (r: (IoApics, Vec<(usize, RegisterWrite)>))
    requires
        apics_wf(apics@),
        forall|i: int| 0 <= i < apics@.len() ==> (#[trigger] apics@[i]).gsi_to_irq@ == Map::<u32, u8>::empty(),
        isos_valid(isos@),
        routes_servable(apics@, boot_routes(isos@)),
    ensures
        same_ranges(r.0.apics@, apics@),
        forall|i: int| 0 <= i < r.0.apics@.len() ==>
            (#[trigger] r.0.apics@[i]).gsi_to_irq@ == apic_table(apics@, boot_routes(isos@), i, boot_routes(isos@).len() as int),
        r.0.irq_to_gsi@ == irq_table(boot_routes(isos@), boot_routes(isos@).len() as int),
        r.1@ == route_writes(apics@, boot_routes(isos@), bsp_apic_id as u32, boot_routes(isos@).len() as int),
{
    let ghost a0 = apics@;
    let routes = legacy_routes(isos);
    let ghost rs = routes@;
    proof {
        lemma_identity_routes(isos@, 0);
        assert forall|k: int| 0 <= k < rs.len() implies (#[trigger] rs[k]).source + IRQ_BASE <= 255 by {
            let n = iso_routes(isos@).len();
            if k < n {
                assert(rs[k] == iso_routes(isos@)[k]);
            } else {
                assert(rs[k] == identity_routes_from(isos@, 0)[k - n]);
            }
        }
    }
    let mut apics = apics;
    let mut irq_to_gsi: BTreeMap<u8, u32> = BTreeMap::new();
    let mut writes: Vec<(usize, RegisterWrite)> = Vec::new();
    let dest = bsp_apic_id as u32;
    let mut k: usize = 0;
    while k < routes.len()
        invariant
            rs == routes@,
            rs == boot_routes(isos@),
            k <= rs.len(),
            forall|m: int| 0 <= m < rs.len() ==> (#[trigger] rs[m]).source + IRQ_BASE <= 255,
            routes_servable(a0, rs),
            apics_wf(a0),
            same_ranges(apics@, a0),
            apics_wf(apics@),
            forall|i: int| 0 <= i < apics@.len() ==> (#[trigger] apics@[i]).gsi_to_irq@ == apic_table(a0, rs, i, k as int),
            irq_to_gsi@ == irq_table(rs, k as int),
            writes@ == route_writes(a0, rs, dest, k as int),
            dest == bsp_apic_id as u32,
        decreases rs.len() - k,
    {
        let r = routes[k];
        irq_to_gsi.insert(r.source, r.gsi);
        proof {
            lemma_first_containing_same(apics@, a0, r.gsi);
            let _ = rs[k as int];
        }
        let i = find_io_apic(&apics, r.gsi).unwrap();
        let ghost before = apics@;
        let mut a = apics.remove(i);
        let vector = r.source + IRQ_BASE;
        let (lo, hi) = a.map_interrupt(r.gsi, dest, r.trigger, r.polarity, vector);
        apics.insert(i, a);
        proof {
            assert(apics@ == before.update(i as int, a));
            assert forall|j: int| 0 <= j < apics@.len() implies #[trigger] apics@[j].global_system_interrupt_base
                == a0[j].global_system_interrupt_base && apics@[j].version == a0[j].version
                && apics@[j].base_addr == a0[j].base_addr by {
                if j != i {
                    assert(apics@[j] == before[j]);
                }
                assert(before[j].global_system_interrupt_base == a0[j].global_system_interrupt_base);
            }
            assert forall|j: int| 0 <= j < apics@.len() implies (#[trigger] apics@[j]).gsi_to_irq@
                == apic_table(a0, rs, j, k + 1) by {}
            assert forall|j: int| 0 <= j < apics@.len() implies
                #[trigger] apics@[j].global_system_interrupt_base + apics@[j].max_entries() <= u32::MAX by {
                assert(before[j].global_system_interrupt_base + before[j].max_entries() <= u32::MAX);
            }
        }
        writes.push((i, lo));
        writes.push((i, hi));
        k = k + 1;
    }
    (IoApics { apics, irq_to_gsi }, writes)
}

/// Whether the overrides can be honoured.
pub fn check_isos_valid(isos: &Vec<acpi_madt_interrupt_source_override>) -> (r: bool)
    ensures
        r == isos_valid(isos@),
{
    let mut i: usize = 0;
    while i < isos.len()
        invariant
            i <= isos@.len(),
            isos_valid(isos@.take(i as int)),
        decreases isos@.len() - i,
    {
        let o = isos[i];
        if o.polarity().is_none() || o.trigger_mode().is_none() || o.source > 255 - IRQ_BASE {
            assert(!isos_valid(isos@)) by {
                assert(isos@[i as int] == o);
            }
            return false;
        }
        assert forall|m: int| 0 <= m < i + 1 implies {
            &&& polarity_of(#[trigger] isos@.take(i + 1)[m].flags) is Some
            &&& trigger_mode_of(isos@.take(i + 1)[m].flags) is Some
            &&& isos@.take(i + 1)[m].source + IRQ_BASE <= 255
        } by {
            if m < i { assert(isos@.take(i + 1)[m] == isos@.take(i as int)[m]); }
        }
        i = i + 1;
    }
    assert(isos@.take(i as int) =~= isos@);
    true
}

/// Whether every route has an I/O APIC that can take it.
pub fn check_routes_servable(apics: &Vec<IoApic>, routes: &Vec<LegacyRoute>) -> (r: bool)
    requires
        apics_wf(apics@),
    ensures
        r == routes_servable(apics@, routes@),
{
    let mut k: usize = 0;
    while k < routes.len()
        invariant
            apics_wf(apics@),
            k <= routes@.len(),
            routes_servable(apics@, routes@.take(k as int)),
        decreases routes@.len() - k,
    {
        let g = routes[k].gsi;
        let ok = match find_io_apic(apics, g) {
            Some(i) => {
                let a = &apics[i];
                a.global_system_interrupt_base <= g && (g - a.global_system_interrupt_base) % 256 < 0x78
            },
            None => false,
        };
        if !ok {
            assert(!routes_servable(apics@, routes@)) by {
                assert(routes@[k as int].gsi == g);
            }
            return false;
        }
        assert forall|m: int| 0 <= m < k + 1 implies {
            &&& #[trigger] first_containing(apics@, routes@.take(k + 1)[m].gsi) matches Some(i)
            &&& apics@[i].routable(routes@.take(k + 1)[m].gsi)
        } by {
            if m < k { assert(routes@.take(k + 1)[m] == routes@.take(k as int)[m]); }
        }
        k = k + 1;
    }
    assert(routes@.take(k as int) =~= routes@);
    true
}

/// Whether the I/O APICs' ranges can be tested without overflow.
pub fn check_apics_wf(apics: &Vec<IoApic>) -> (r: bool)
    ensures
        r == apics_wf(apics@),
{
    let mut i: usize = 0;
    while i < apics.len()
        invariant
            i <= apics@.len(),
            forall|j: int| 0 <= j < i ==>
                #[trigger] apics@[j].global_system_interrupt_base + apics@[j].max_entries() <= u32::MAX,
        decreases apics@.len() - i,
    {
        let m = apics[i].get_max_redirection_table_entries();
        if apics[i].global_system_interrupt_base > u32::MAX - m as u32 {
            return false;
        }
        i = i + 1;
    }
    true
}

/// Unmask `gsi` on the first I/O APIC serving it, given the two halves of its
/// redirection entry as they read now: that APIC's index and the writes.
pub fn enable_gsi(apics: &IoApics, gsi: u32, low_now: u32, high_now: u32) -> (r: (usize, RegisterWrite, RegisterWrite))
    requires
        apics_wf(apics.apics@),
        first_containing(apics.apics@, gsi) matches Some(i) && apics.apics@[i].routable(gsi),
    ensures
        Some(r.0 as int) == first_containing(apics.apics@, gsi),
        r.1.index == redirection_index(apics.apics@[r.0 as int].global_system_interrupt_base, gsi),
        r.1.value == low_now & !IOAPIC_INTMASK_DISABLED,
        r.2.index == r.1.index + 1,
        r.2.value == high_now,
{
    let i = find_io_apic(&apics.apics, gsi).unwrap();
    let (lo, hi) = apics.apics[i].enable_gsi(gsi, low_now, high_now);
    (i, lo, hi)
}

/// The GSI-to-vector map after `map_interrupt` is called with each
/// (GSI, vector) of `calls` in turn, starting from `m`.
pub open spec fn after_mappings(m: Map<u32, u8>, calls: Seq<(u32, u8)>) -> Map<u32, u8>
    decreases calls.len(),
{
    if calls.len() == 0 {
        m
    } else {
        after_mappings(m, calls.drop_last()).insert(calls.last().0, calls.last().1)
    }
}

/// The vector of the last of `calls` that maps `gsi`, if any does.
pub open spec fn last_mapping(calls: Seq<(u32, u8)>, gsi: u32) -> Option<u8>
    decreases calls.len(),
{
    if calls.len() == 0 {
        None
    } else if calls.last().0 == gsi {
        Some(calls.last().1)
    } else {
        last_mapping(calls.drop_last(), gsi)
    }
}

/// The last mapping of a GSI wins: after a fresh I/O APIC has mapped the
/// GSIs of `calls` in turn, `get_irq_for_gsi` finds for each GSI the vector
/// of the last call that mapped it, and nothing for a GSI no call mapped.
pub proof fn lemma_last_mapping_wins(calls: Seq<(u32, u8)>, gsi: u32)
    ensures
        match last_mapping(calls, gsi) {
            Some(v) => after_mappings(Map::empty(), calls).contains_key(gsi)
                && after_mappings(Map::empty(), calls)[gsi] == v,
            None => !after_mappings(Map::empty(), calls).contains_key(gsi),
        },
    decreases calls.len(),
{
    if calls.len() > 0 {
        lemma_last_mapping_wins(calls.drop_last(), gsi);
    }
}

} // verus!
