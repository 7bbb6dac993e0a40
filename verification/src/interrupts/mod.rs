//! Interrupt routing: the I/O APICs, the handler table, and how a global
//! system interrupt reaches its handlers.
use vstd::prelude::*;

pub mod io_apic;
pub mod idt;

verus! {

/// Where a device's interrupts arrive: a legacy IRQ line or a global system
/// interrupt.
#[derive(Debug, Clone, Copy, PartialEq, Eq, Structural)]
pub enum InterruptRoute {
    Irq(u8),
    Gsi(u32),
}

/// First vector used for IRQs; vectors below belong to CPU exceptions.
pub const IRQ_BASE: u8 = 32;

} // verus!

verus! {

use crate::interrupts::io_apic::{IoApics, RegisterWrite, apics_wf, first_containing, redirection_index, IOAPIC_INTMASK_DISABLED};
use crate::interrupts::idt::HandlerTable;

/// The I/O APICs and the IRQ handler table together.
pub struct InterruptController {
    pub io_apics: IoApics,
    pub handlers: HandlerTable,
}

/// An empty IRQ handler table.
pub fn init_handler_funcs() -> (t: HandlerTable)
    ensures
        forall|irq: u8| t.handlers_of(irq) == Seq::<u64>::empty(),
{
    idt::init_handlers()
}

/// Register `handler` for `irq`.
pub fn add_irq_handler(handlers: &mut HandlerTable, irq: u8, handler: u64)
    ensures
        final(handlers).handlers_of(irq) == old(handlers).handlers_of(irq).push(handler),
        forall|other: u8| other != irq ==> final(handlers).handlers_of(other) == old(handlers).handlers_of(other),
{
    idt::add_handler_to_irq(handlers, irq, handler);
}

/// The vector the I/O APIC serving `gsi` routed it to.
pub open spec fn routed_vector(apics: IoApics, gsi: u32) -> u8 {
    let i = first_containing(apics.apics@, gsi).unwrap();
    apics.apics@[i].gsi_to_irq@[gsi]
}

/// Whether `gsi` is served by an I/O APIC that routed it.
pub open spec fn gsi_routed(apics: IoApics, gsi: u32) -> bool {
    &&& first_containing(apics.apics@, gsi) matches Some(i)
    &&& apics.apics@[i].routable(gsi)
    &&& apics.apics@[i].gsi_to_irq@.contains_key(gsi)
}

/// Let `handler` run when `gsi` arrives: register it for the vector that
/// `gsi` was routed to, and unmask `gsi` given its redirection entry as it
/// reads now. Gives the vector, the I/O APIC's index and its writes.
pub fn enable_gsi(ctl: &mut InterruptController, gsi: u32, handler: u64, low_now: u32, high_now: u32)
    -> (r: (u8, usize, RegisterWrite, RegisterWrite))
    requires
        apics_wf(old(ctl).io_apics.apics@),
        gsi_routed(old(ctl).io_apics, gsi),
    ensures
        r.0 == routed_vector(old(ctl).io_apics, gsi),
        final(ctl).handlers.handlers_of(r.0) == old(ctl).handlers.handlers_of(r.0).push(handler),
        forall|other: u8| other != r.0 ==> final(ctl).handlers.handlers_of(other) == old(ctl).handlers.handlers_of(other),
        final(ctl).io_apics == old(ctl).io_apics,
        Some(r.1 as int) == first_containing(old(ctl).io_apics.apics@, gsi),
        r.2.index == redirection_index(old(ctl).io_apics.apics@[r.1 as int].global_system_interrupt_base, gsi),
        r.2.value == low_now & !IOAPIC_INTMASK_DISABLED,
        r.3.index == r.2.index + 1,
        r.3.value == high_now,
{
    let irq = match io_apic::get_irq_for_gsi(&ctl.io_apics, gsi) {
        Some(irq) => irq,
        None => 0,
    };
    idt::add_handler_to_irq(&mut ctl.handlers, irq, handler);
    let (i, lo, hi) = io_apic::enable_gsi(&ctl.io_apics, gsi, low_now, high_now);
    (irq, i, lo, hi)
}

} // verus!
