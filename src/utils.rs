//! Small helpers shared by the codecs.
pub mod bytes;
pub mod ip_checksum;
