pub mod rsdp;
pub mod sdt;
pub mod tables;
