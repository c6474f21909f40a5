//! The proxy: each carrier that arrives on one side of the tunnel leaves on
//! the other.
use crate::control_interfaces::pcap;
use crate::control_interfaces::stack::frame_of;
use crate::control_interfaces::tunnels::icmp_tcp::{
    action_of, decoded_metadata, embellished_icmp, encoded_metadata, fits_in_icmp, return_address,
    Icmp, Tcp, Tunnel,
};
use crate::control_interfaces::tunnels::{Tunnel as _, Tunnelable};
use crate::protocols::sessionlayer;
use vstd::prelude::*;

verus! {

/// A carrier taken from one of the proxy's two sides.
#[derive(Debug)]
pub enum TunnelData<P, M> {
    /// From the side that carries plain traffic.
    Plain(P),
    /// From the side that carries the tunnel.
    Meta(M),
}

/// A frame to inject, and on which side.
#[derive(Debug)]
pub enum Outbound {
    /// Into the tunnel.
    Meta(pcap::Data),
    /// Out of the tunnel, in the clear.
    Plain(pcap::Data),
}

/// What the proxy sends for one carrier: a TCP segment goes into the tunnel
/// wrapped in ICMP (when it fits in one IPv4 packet; else it is dropped),
/// and a tunnelled segment comes out in the clear.
pub fn forward(tun: &mut Tunnel, item: TunnelData<Tcp, Icmp>) -> (r: Option<Outbound>)
    ensures
        *final(tun) == *old(tun),
        match item {
            TunnelData::Plain(p) => if fits_in_icmp(p.segment) {
                match r {
                    Some(Outbound::Meta(d)) => embellished_icmp(
                        Icmp {
                            packet: p.segment,
                            metadata: encoded_metadata(*old(tun), p.metadata),
                            action: action_of(old(tun).my_role),
                            original_dst: return_address(old(tun).my_role, p.metadata),
                        },
                        d,
                    ),
                    _ => false,
                }
            } else {
                r is None
            },
            TunnelData::Meta(m) => r == Some(
                Outbound::Plain(
                    pcap::Data::LinkLayer(
                        frame_of(
                            decoded_metadata(*old(tun), m.metadata, m.original_dst),
                            sessionlayer::Data::Tcp(m.packet),
                        ),
                    ),
                ),
            ),
        },
{
    match item {
        TunnelData::Plain(p) => {
            let i = tun.encode(p);
            if i.is_carriable() {
                Some(Outbound::Meta(i.embellish()))
            } else {
                None
            }
        },
        TunnelData::Meta(m) => {
            let t = tun.decode(m);
            Some(Outbound::Plain(t.embellish()))
        },
    }
}

} // verus!
