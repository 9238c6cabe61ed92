//! Reads diagnostic metadata out of an Android boot image: the ARM64 kernel
//! image header, the kernel build banner, and the version of a root-access
//! payload bundled in the ramdisk.

pub mod error;
pub mod arm64_image_header;
pub mod kernel_banner;
pub mod ramdisk;
pub mod magisk_version;
