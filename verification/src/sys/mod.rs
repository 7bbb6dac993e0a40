pub mod syscall;
pub mod acpi;
pub mod block;
pub mod vfs;
pub mod ioctl;
