//! Verified core of the monOS kernel and its graphics library: geometry,
//! text layout, widget placement, framebuffer drawing, image decoding,
//! x86 descriptor encodings, ACPI tables and the FAT16 file system.
pub mod monodoc;
pub mod monos_gfx;
pub mod monos_kernel;
