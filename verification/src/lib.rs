//! Scanner and decoder for Linux md-raid superblocks.
//!
//! The library finds the 4-byte md-raid magic signature in byte buffers,
//! either at 512-byte block boundaries or at every byte offset, and decodes
//! the superblock metadata (format version, array name, timestamps) found
//! at a hit, for both the legacy v0.90 layout and the v1.x layout.

pub mod endian;
pub mod numfmt;
pub mod report;
pub mod scan;
pub mod superblock;
pub mod words;
