//! The wire codecs, from the link layer down to the session layer.
pub mod arp;
pub mod ethernet;
pub mod icmp;
pub mod ip;
pub mod ipv4;
pub mod ipv6;
pub mod linklayer;
pub mod networklayer;
pub mod sessionlayer;
pub mod tcp;
pub mod udp;
