//! Venix kernel core: the allocators, file-system, device-protocol, process and
//! scheduling logic of the Venix x86-64 kernel, with its behaviour stated and
//! proved. Hardware access, interrupt plumbing and boot glue live outside.

use vstd::prelude::*;

pub mod memory;
pub mod dma;
pub mod console;
pub mod printk;
pub mod utils;
pub mod text;
pub mod le;
pub mod fs;
pub mod sys;
pub mod driver;
pub mod drivers;
pub mod interrupts;
pub mod process;
pub mod scheduler;

