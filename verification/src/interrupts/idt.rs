//! The table of handlers run when an IRQ arrives.
use vstd::prelude::*;
use std::collections::BTreeMap;

verus! {

/// For each IRQ vector, the handlers registered for it, in registration
/// order. A handler is named by the number its owner gave it.
pub struct HandlerTable {
    pub handlers: BTreeMap<u8, Vec<u64>>,
}

impl HandlerTable {
    /// The handlers registered for `irq`, in order.
    pub open spec fn handlers_of(&self, irq: u8) -> Seq<u64> {
        if self.handlers@.contains_key(irq) { self.handlers@[irq]@ } else { Seq::empty() }
    }

    /// The IRQs with at least one table entry.
    pub open spec fn irqs(&self) -> Set<u8> {
        self.handlers@.dom()
    }
}

/// A table with no handler.
pub fn init_handlers() -> (t: HandlerTable)
    ensures
        forall|irq: u8| t.handlers_of(irq) == Seq::<u64>::empty(),
        t.irqs() == Set::<u8>::empty(),
{
    HandlerTable { handlers: BTreeMap::new() }
}

/// Register `handler` for `irq`, after the handlers it already has.
pub fn add_handler_to_irq(table: &mut HandlerTable, irq: u8, handler: u64)
    ensures
        final(table).handlers_of(irq) == old(table).handlers_of(irq).push(handler),
        forall|other: u8| other != irq ==> final(table).handlers_of(other) == old(table).handlers_of(other),
        final(table).irqs() == old(table).irqs().insert(irq),
{
    let ghost before = table.handlers@;
    let mut v: Vec<u64> = match table.handlers.remove(&irq) {
        Some(v) => v,
        None => Vec::new(),
    };
    v.push(handler);
    table.handlers.insert(irq, v);
    proof {
        assert(table.handlers@.dom() =~= before.dom().insert(irq));
    }
}

/// The handlers to run, in order, when `irq` arrives.
pub fn handlers_for(table: &HandlerTable, irq: u8) -> (r: Vec<u64>)
    ensures
        r@ == table.handlers_of(irq),
{
    match table.handlers.get(&irq) {
        Some(v) => v.clone(),
        None => Vec::new(),
    }
}

} // verus!
