//! A userspace tunnel that carries TCP segments inside ICMP Echo messages.
//!
//! The library holds the verified parts of the tunnel: the Internet checksum,
//! the wire codecs for Ethernet, ARP, IPv4, IPv6, ICMP, TCP and UDP, the IPv4
//! stack projection, the TCP-in-ICMP tunnel mapping, and the decisions of the
//! capture engine and of the proxy.
pub mod agents;
pub mod control_interfaces;
pub mod protocols;
pub mod utils;
