pub mod hpet;
pub mod madt;
