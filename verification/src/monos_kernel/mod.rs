pub mod acpi;
pub mod arch;
pub mod core_local;
pub mod dev;
pub mod framebuffer;
pub mod fs;
pub mod gdt;
pub mod interrupts;
pub mod strings;
pub mod utils;
