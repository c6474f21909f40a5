//! Projection of Ethernet/IPv4 frames onto their session-layer payload.
use crate::protocols::ip::Ecn;
use crate::protocols::ipv4::FragmentOffset;
use crate::protocols::{ethernet, ip, ipv4, linklayer, networklayer, sessionlayer};
use vstd::prelude::*;

verus! {

/// The headers of an Ethernet/IPv4 frame that are needed to build it again
/// around another payload.
#[derive(Debug, Clone, Copy)]
pub struct Metadata {
    pub mac_src: [u8; 6],
    pub mac_dst: [u8; 6],
    pub ip_src: [u8; 4],
    pub ip_dst: [u8; 4],
    pub mf: bool,
    pub fragment_offset: FragmentOffset,
    pub id: u16,
    pub ttl: u8,
    pub dscp: u8,
    pub ecn: Ecn,
}

/// The payload and header metadata of `d`, when it is an Ethernet frame
/// carrying IPv4.
pub open spec fn ipv4_parts(d: linklayer::Data) -> Option<(sessionlayer::Data, Metadata)> {
    match d {
        linklayer::Data::Ethernet(f) => match f.next {
            networklayer::Data::Ip(ip::Packet::V4(p)) => Some(
                (
                    p.next,
                    Metadata {
                        mac_dst: f.dst,
                        mac_src: f.src,
                        ip_src: p.src,
                        ip_dst: p.dst,
                        id: p.id,
                        dscp: p.dscp,
                        ecn: p.ecn,
                        mf: p.mf,
                        fragment_offset: p.fragment_offset,
                        ttl: p.ttl,
                    },
                ),
            ),
            _ => None,
        },
    }
}

/// The Ethernet/IPv4 frame that `m` describes, around `s`, with its IPv4
/// checksum left to be computed.
pub open spec fn frame_of(m: Metadata, s: sessionlayer::Data) -> linklayer::Data {
    linklayer::Data::Ethernet(
        ethernet::Frame {
            dst: m.mac_dst,
            src: m.mac_src,
            next: networklayer::Data::Ip(
                ip::Packet::V4(
                    ipv4::Packet {
                        src: m.ip_src,
                        dst: m.ip_dst,
                        id: m.id,
                        ttl: m.ttl,
                        dscp: m.dscp,
                        ecn: m.ecn,
                        mf: m.mf,
                        fragment_offset: m.fragment_offset,
                        checksum: None,
                        next: s,
                    },
                ),
            ),
        },
    )
}

impl Metadata {
    /// Splits an Ethernet/IPv4 frame into its payload and its metadata;
    /// `None` for any other frame.
    pub fn extract(raw_data: linklayer::Data) -> (r: Option<(sessionlayer::Data, Self)>)
        ensures
            r == ipv4_parts(raw_data),
    {
        match raw_data {
            linklayer::Data::Ethernet(frame) => {
                let ethernet::Frame { dst: mac_dst, src: mac_src, next } = frame;
                match next {
                    networklayer::Data::Ip(ip::Packet::V4(packet)) => {
                        let ipv4::Packet {
                            src: ip_src,
                            dst: ip_dst,
                            id,
                            dscp,
                            ecn,
                            mf,
                            fragment_offset,
                            next: session,
                            ttl,
                            ..
                        } = packet;
                        Some(
                            (
                                session,
                                Metadata {
                                    mac_dst,
                                    mac_src,
                                    ip_src,
                                    ip_dst,
                                    id,
                                    dscp,
                                    ecn,
                                    mf,
                                    fragment_offset,
                                    ttl,
                                },
                            ),
                        )
                    },
                    _ => None,
                }
            },
        }
    }

    /// Builds the Ethernet/IPv4 frame that this metadata describes around
    /// `raw_data`.
    pub fn embellish(&self, raw_data: sessionlayer::Data) -> (r: linklayer::Data)
        ensures
            r == frame_of(*self, raw_data),
    {
        linklayer::Data::Ethernet(
            ethernet::Frame {
                dst: self.mac_dst,
                src: self.mac_src,
                next: networklayer::Data::Ip(
                    ip::Packet::V4(
                        ipv4::Packet::from_metadata(
                            self.ip_src,
                            self.ip_dst,
                            self.id,
                            self.dscp,
                            self.ecn,
                            self.mf,
                            self.fragment_offset,
                            self.ttl,
                            raw_data,
                        ),
                    ),
                ),
            },
        )
    }
}

/// Splitting a frame that was built from metadata gives back the payload
/// and the metadata.
pub proof fn lemma_extract_embellish(m: Metadata, s: sessionlayer::Data)
    ensures
        ipv4_parts(frame_of(m, s)) == Some((s, m)),
{
}

} // verus!
