//! Terminal control requests that `ioctl` knows.
use vstd::prelude::*;

verus! {

/// The `ioctl` requests this kernel knows.
#[allow(non_camel_case_types)]
#[derive(Debug, Clone, Copy, PartialEq, Eq, Structural)]
pub enum IoCtl {
    TCGETS,
    TCSETS,
    TIOCGPGRP,
    TIOCSPGRP,
    TIOCGWINSZ,
}

impl IoCtl {
    pub open spec fn spec_number(self) -> u64 {
        match self {
            IoCtl::TCGETS => 0x5401,
            IoCtl::TCSETS => 0x5402,
            IoCtl::TIOCGPGRP => 0x540F,
            IoCtl::TIOCSPGRP => 0x5410,
            IoCtl::TIOCGWINSZ => 0x5413,
        }
    }

    /// The request's number.
    pub fn number(self) -> (r: u64)
        ensures
            r == self.spec_number(),
    {
        match self {
            IoCtl::TCGETS => 0x5401,
            IoCtl::TCSETS => 0x5402,
            IoCtl::TIOCGPGRP => 0x540F,
            IoCtl::TIOCSPGRP => 0x5410,
            IoCtl::TIOCGWINSZ => 0x5413,
        }
    }

    /// The request numbered `n`, if it is one of those known.
    pub fn from_number(n: u64) -> (r: Option<IoCtl>)
        ensures
            match r {
                Some(op) => op.spec_number() == n,
                None => forall|op: IoCtl| #[trigger] op.spec_number() != n,
            },
    {
        if n == 0x5401 {
            Some(IoCtl::TCGETS)
        } else if n == 0x5402 {
            Some(IoCtl::TCSETS)
        } else if n == 0x540F {
            Some(IoCtl::TIOCGPGRP)
        } else if n == 0x5410 {
            Some(IoCtl::TIOCSPGRP)
        } else if n == 0x5413 {
            Some(IoCtl::TIOCGWINSZ)
        } else {
            None
        }
    }
}

} // verus!
