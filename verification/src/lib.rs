//! Builder for raw Ethernet + IPv4 + TCP SYN frames.
//!
//! The library encodes a three-layer header stack into one contiguous
//! buffer and proves that the emitted lengths, fields and one's-complement
//! checksums are correct.

pub mod checksum;
pub mod laws;
pub mod packet;
