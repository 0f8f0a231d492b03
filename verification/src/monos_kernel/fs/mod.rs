pub mod bytes;
pub mod fat16;
pub mod path;
pub mod ramdisk;
pub mod vfs;
