//! A verified TCP segment codec: parsing, validation, and serialization of
//! TCP segments over caller-supplied byte buffers, with the one's-complement
//! Internet checksum and its IPv4 pseudo-header, plus a small kernel-version
//! parsing utility.

pub mod bytes;
pub mod checksum;
pub mod kernel_version;
pub mod tcp;
