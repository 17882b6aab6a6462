//! Decoders for the on-disk structures of a FAT-formatted disk image — the
//! MBR partition table, the FAT boot sector, and the fixed-size root
//! directory entries — together with the positional walk that locates each
//! structure in the raw image bytes.

pub mod boot;
pub mod dir;
pub mod endian;
pub mod partition;
pub mod text;
pub mod walk;
