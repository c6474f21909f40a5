//! The layers between captured frames and the tunnel: the capture engine's
//! decisions, the IPv4 stack projection, and the tunnels.
pub mod pcap;
pub mod stack;
pub mod tunnels;
