//! Signal handlers as user space describes them (`struct sigaction`) and as
//! the kernel keeps them.
use vstd::prelude::*;

verus! {

/// `struct sigaction` as user space lays it out.
#[derive(Debug, Clone, Copy, PartialEq, Eq, Structural)]
pub struct SigAction {
    pub sa_handler: usize,
    pub sa_mask: u64,
    pub sa_flags: i32,
}

/// Whether the handler takes the plain signal number or the extended
/// `siginfo` arguments.
#[derive(Debug, Clone, Copy, PartialEq, Eq, Structural)]
pub enum HandlerType {
    Handler,
    SigAction,
}

/// A signal handler: where it starts, the signals masked while it runs, its
/// kind, and its flags.
#[derive(Debug, Clone, Copy, PartialEq, Eq, Structural)]
pub struct SignalHandler {
    pub handler: usize,
    pub mask: u64,
    pub handler_type: HandlerType,
    pub flags: u64,
}

/// The kind of handler a mask selects: bit 4 asks for the extended form.
pub open spec fn handler_type_of(mask: u64) -> HandlerType {
    if (mask / 16) % 2 == 1 { HandlerType::SigAction } else { HandlerType::Handler }
}

/// The handler a `sigaction` describes; the flags are widened with their
/// sign.
pub fn parse_sigaction(sigaction: SigAction) -> (r: SignalHandler)
    ensures
        r.handler == sigaction.sa_handler,
        r.mask == sigaction.sa_mask,
        r.handler_type == handler_type_of(sigaction.sa_mask),
        r.flags == sigaction.sa_flags as u64,
{
    let m = sigaction.sa_mask;
    assert(((m & 0x10) != 0) == ((m / 16) % 2 == 1)) by (bit_vector);
    SignalHandler {
        handler: sigaction.sa_handler,
        mask: sigaction.sa_mask,
        handler_type: if (m & 0x10) != 0 {
            HandlerType::SigAction
        } else {
            HandlerType::Handler
        },
        flags: sigaction.sa_flags as u64,
    }
}

/// The `sigaction` describing a handler; the flags are cut to 32 bits.
pub fn create_sigaction(sighandler: SignalHandler) -> (r: SigAction)
    ensures
        r.sa_handler == sighandler.handler,
        r.sa_mask == sighandler.mask,
        r.sa_flags == sighandler.flags as i32,
{
    SigAction { sa_handler: sighandler.handler, sa_mask: sighandler.mask, sa_flags: sighandler.flags as i32 }
}

/// Describing a handler and reading the description back gives the handler,
/// when its flags fit in 32 bits with their sign and its kind is the one
/// its mask selects.
pub proof fn lemma_sigaction_round_trip(h: SignalHandler, a: SigAction, back: SignalHandler)
    requires
        h.flags < 0x8000_0000,
        h.handler_type == handler_type_of(h.mask),
        a.sa_handler == h.handler,
        a.sa_mask == h.mask,
        a.sa_flags == h.flags as i32,
        back.handler == a.sa_handler,
        back.mask == a.sa_mask,
        back.handler_type == handler_type_of(a.sa_mask),
        back.flags == a.sa_flags as u64,
    ensures
        back == h,
{
    let f = h.flags;
    assert(f < 0x8000_0000 ==> (f as i32) as u64 == f) by (bit_vector);
}

} // verus!
