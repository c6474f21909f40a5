//! A tunnel that carries TCP segments inside ICMP Echo messages.
use crate::control_interfaces::pcap;
use crate::control_interfaces::stack::{frame_of, ipv4_parts, Metadata};
use crate::control_interfaces::tunnels;
use crate::protocols::ip::Ecn;
use crate::protocols::ipv4::FragmentOffset;
use crate::protocols::{icmp, sessionlayer, tcp};
use crate::utils::ip_checksum::{checksum_of, lemma_word_sum_bound, sum_words, word_sum};
use vstd::prelude::*;
use vstd::string::StringExecFns;

verus! {

/// A TCP segment carried in an ICMP Echo message.
#[derive(Debug)]
pub struct Icmp {
    /// The segment that was encoded in the tunnel.
    pub packet: tcp::Segment,
    /// The ICMP action of the message.
    pub action: icmp::Action,
    /// The rest-of-header field: the address that the segment's IPv4
    /// packet is to be rebuilt with.
    pub original_dst: [u8; 4],
    /// The headers of the ICMP-bearing frame.
    pub metadata: Metadata,
}

/// A TCP segment as it travels in the clear.
#[derive(Debug)]
pub struct Tcp {
    pub segment: tcp::Segment,
    pub metadata: Metadata,
}

/// An identity on the network.
#[derive(Debug, Clone, Copy)]
pub struct EndpointIdentity {
    pub ip: [u8; 4],
    pub mac: [u8; 6],
}

/// A proxy's role in the tunnel.
#[derive(Debug, Clone, Copy)]
pub enum Role {
    /// The proxy sits next to the TCP client, whose identity it knows.
    Aware(EndpointIdentity),
    /// The proxy faces the wider network and sends through this gateway.
    Unaware { gateway: [u8; 6] },
}

/// The configuration of one end of the tunnel.
#[derive(Debug, Clone, Copy)]
pub struct Tunnel {
    /// The proxy at the other end.
    pub other_proxy: EndpointIdentity,
    /// This proxy as seen from the interface that carries ICMP.
    pub clear: EndpointIdentity,
    /// This proxy as seen from the interface that carries TCP.
    pub meta: EndpointIdentity,
    pub my_role: Role,
}

/// Why the tunnel's interfaces could not be opened.
#[derive(Debug, Clone, Copy, PartialEq, Eq, Structural)]
pub enum InterfaceError {
    OpenClear,
    OpenInt,
    ApplyFilter,
}

/// The sum of the TCP pseudo-header of a segment sent with metadata `m`.
pub open spec fn tcp_pseudo_sum(m: Metadata) -> nat {
    word_sum(m.ip_src@ + m.ip_dst@ + seq![0u8, 6u8])
}

/// What extracting the ICMP carrier from `inp` gives: an Ethernet/IPv4
/// frame holding an ICMP message whose data decodes as a TCP segment.
pub open spec fn extracted_icmp(inp: pcap::Data, r: Option<Icmp>) -> bool {
    match inp {
        pcap::Data::LinkLayer(l) => match ipv4_parts(l) {
            Some((sessionlayer::Data::Icmp(p), m)) => match r {
                Some(i) => tcp::decode_error(p.data@) == None::<tcp::Error> && tcp::decodes_to(
                    p.data@,
                    i.packet,
                ) && i.metadata == m && i.action == p.action && i.original_dst == p.rest,
                None => tcp::decode_error(p.data@) != None::<tcp::Error>,
            },
            _ => r is None,
        },
    }
}

/// `q` is the ICMP message that carries `i`: the segment encoded over its
/// pseudo-header, and the ICMP checksum computed over the message.
pub open spec fn carries(i: Icmp, q: icmp::Packet) -> bool {
    &&& q.action == i.action
    &&& q.rest == i.original_dst
    &&& q.data@ == tcp::encoding(i.packet, tcp_pseudo_sum(i.metadata) as u32)
    &&& q.checksum == checksum_of(
        icmp::encoding(icmp::Packet { action: q.action, checksum: 0, rest: q.rest, data: q.data }),
        0,
    )
}

/// `r` is the frame that carries `i`.
pub open spec fn embellished_icmp(i: Icmp, r: pcap::Data) -> bool {
    match r {
        pcap::Data::LinkLayer(l) => match ipv4_parts(l) {
            Some((sessionlayer::Data::Icmp(q), m)) => m == i.metadata && carries(i, q) && l
                == frame_of(m, sessionlayer::Data::Icmp(q)),
            _ => false,
        },
    }
}

/// What extracting the TCP carrier from `inp` gives.
pub open spec fn extracted_tcp(inp: pcap::Data) -> Option<Tcp> {
    match inp {
        pcap::Data::LinkLayer(l) => match ipv4_parts(l) {
            Some((sessionlayer::Data::Tcp(s), m)) => Some(Tcp { segment: s, metadata: m }),
            _ => None,
        },
    }
}

/// Whether a segment fits, with its ICMP and IPv4 headers, in one IPv4
/// packet.
pub open spec fn fits_in_icmp(s: tcp::Segment) -> bool {
    tcp::encodable(s) && tcp::wire_len(s) + 28 <= 0xFFFF
}

impl tunnels::Tunnelable<pcap::Data> for Icmp {
    open spec fn carriable(&self) -> bool {
        fits_in_icmp(self.packet)
    }

    fn is_carriable(&self) -> (r: bool) {
        self.packet.is_encodable() && self.packet.options.len() + self.packet.payload.len()
            <= 0xFFFF - 48
    }

    fn extract(inp: pcap::Data) -> (r: Option<Self>)
        ensures
            extracted_icmp(inp, r),
    {
        match inp {
            pcap::Data::LinkLayer(l) => match Metadata::extract(l) {
                Some((sessionlayer::Data::Icmp(p), m)) => match tcp::Segment::from_buffer(
                    p.data.as_slice(),
                ) {
                    Ok(s) => Some(Icmp { packet: s, metadata: m, action: p.action, original_dst: p.rest }),
                    Err(_) => None,
                },
                _ => None,
            },
        }
    }

    fn embellish(self) -> (r: pcap::Data)
        ensures
            embellished_icmp(self, r),
    {
        // The segment's checksum covers the IPv4 pseudo-header of the packet
        // that will carry it.
        let pseudo_header: [u8; 10] = [
            self.metadata.ip_src[0],
            self.metadata.ip_src[1],
            self.metadata.ip_src[2],
            self.metadata.ip_src[3],
            self.metadata.ip_dst[0],
            self.metadata.ip_dst[1],
            self.metadata.ip_dst[2],
            self.metadata.ip_dst[3],
            0,
            0x06,
        ];
        assert(pseudo_header@ =~= self.metadata.ip_src@ + self.metadata.ip_dst@ + seq![0u8, 6u8]);
        proof {
            lemma_word_sum_bound(pseudo_header@);
        }
        let sum = sum_words(pseudo_header.as_slice());
        let out_data = self.packet.into_buffer((0, 0), sum);
        assert(out_data@ =~= tcp::encoding(self.packet, sum));
        let mut out = icmp::Packet {
            action: self.action,
            checksum: 0,
            rest: self.original_dst,
            data: out_data,
        };
        out.calc_checksum();
        pcap::Data::LinkLayer(self.metadata.embellish(sessionlayer::Data::Icmp(out)))
    }
}

impl tunnels::Tunnelable<pcap::Data> for Tcp {
    open spec fn carriable(&self) -> bool {
        true
    }

    fn is_carriable(&self) -> (r: bool) {
        true
    }

    fn extract(inp: pcap::Data) -> (r: Option<Self>)
        ensures
            r == extracted_tcp(inp),
    {
        match inp {
            pcap::Data::LinkLayer(l) => match Metadata::extract(l) {
                Some((sessionlayer::Data::Tcp(s), m)) => Some(Tcp { segment: s, metadata: m }),
                _ => None,
            },
        }
    }

    fn embellish(self) -> (r: pcap::Data)
        ensures
            r == pcap::Data::LinkLayer(frame_of(self.metadata, sessionlayer::Data::Tcp(self.segment))),
    {
        pcap::Data::LinkLayer(self.metadata.embellish(sessionlayer::Data::Tcp(self.segment)))
    }
}

/// The headers with which a proxy configured as `t` rebuilds the TCP
/// packet carried by an ICMP message with headers `m` and rest-of-header
/// field `rest`.
pub open spec fn decoded_metadata(t: Tunnel, m: Metadata, rest: [u8; 4]) -> Metadata {
    Metadata {
        mac_src: t.meta.mac,
        mac_dst: match t.my_role {
            Role::Aware(e) => e.mac,
            Role::Unaware { gateway } => gateway,
        },
        ip_src: match t.my_role {
            Role::Aware(_) => rest,
            Role::Unaware { .. } => t.meta.ip,
        },
        ip_dst: match t.my_role {
            Role::Aware(e) => e.ip,
            Role::Unaware { .. } => rest,
        },
        mf: false,
        fragment_offset: FragmentOffset::Arbitrary(0),
        id: m.id,
        dscp: 0,
        ttl: m.ttl,
        ecn: Ecn::NonEcnCapable,
    }
}

/// The headers with which a proxy configured as `t` sends the ICMP message
/// that carries a TCP packet with headers `m`.
pub open spec fn encoded_metadata(t: Tunnel, m: Metadata) -> Metadata {
    Metadata {
        mac_src: t.clear.mac,
        mac_dst: t.other_proxy.mac,
        ip_src: t.clear.ip,
        ip_dst: t.other_proxy.ip,
        mf: false,
        fragment_offset: FragmentOffset::Arbitrary(0),
        id: m.id,
        dscp: 0,
        ttl: m.ttl,
        ecn: Ecn::NonEcnCapable,
    }
}

/// The ICMP action that a proxy in role `r` sends.
pub open spec fn action_of(r: Role) -> icmp::Action {
    match r {
        Role::Aware(_) => icmp::Action::EchoRequest,
        Role::Unaware { .. } => icmp::Action::EchoResponse,
    }
}

/// The address that a proxy in role `r` puts in the rest-of-header field
/// for a TCP packet with headers `m`: the destination when it faces the
/// client, else the source.
pub open spec fn return_address(r: Role, m: Metadata) -> [u8; 4] {
    match r {
        Role::Aware(_) => m.ip_dst,
        Role::Unaware { .. } => m.ip_src,
    }
}

impl tunnels::Tunnel<Tcp, Icmp> for Tunnel {
    type Base = pcap::Data;

    fn decode(&mut self, inp: Icmp) -> (r: Tcp)
        ensures
            r.segment == inp.packet,
            r.metadata == decoded_metadata(*old(self), inp.metadata, inp.original_dst),
            *final(self) == *old(self),
    {
        let mac_dst = match &self.my_role {
            Role::Aware(e) => e.mac,
            Role::Unaware { gateway } => *gateway,
        };
        let ip_src = match &self.my_role {
            Role::Aware(_) => inp.original_dst,
            Role::Unaware { .. } => self.meta.ip,
        };
        let ip_dst = match &self.my_role {
            Role::Aware(e) => e.ip,
            Role::Unaware { .. } => inp.original_dst,
        };
        Tcp {
            metadata: Metadata {
                mac_src: self.meta.mac,
                mac_dst,
                ip_src,
                ip_dst,
                // Fragmentation is not supported.
                mf: false,
                fragment_offset: FragmentOffset::Arbitrary(0),
                // The ID and TTL travel in the ICMP packet's own header.
                id: inp.metadata.id,
                dscp: 0,
                ttl: inp.metadata.ttl,
                ecn: Ecn::NonEcnCapable,
            },
            segment: inp.packet,
        }
    }

    fn encode(&mut self, inp: Tcp) -> (r: Icmp)
        ensures
            r.packet == inp.segment,
            r.metadata == encoded_metadata(*old(self), inp.metadata),
            r.action == action_of(old(self).my_role),
            r.original_dst == return_address(old(self).my_role, inp.metadata),
            *final(self) == *old(self),
    {
        let action = match &self.my_role {
            Role::Aware(_) => icmp::Action::EchoRequest,
            Role::Unaware { .. } => icmp::Action::EchoResponse,
        };
        let original_dst = match &self.my_role {
            Role::Aware(_) => inp.metadata.ip_dst,
            Role::Unaware { .. } => inp.metadata.ip_src,
        };
        Icmp {
            packet: inp.segment,
            metadata: Metadata {
                mac_src: self.clear.mac,
                mac_dst: self.other_proxy.mac,
                ip_src: self.clear.ip,
                ip_dst: self.other_proxy.ip,
                // Fragmentation is not supported.
                mf: false,
                fragment_offset: FragmentOffset::Arbitrary(0),
                // The ID and TTL travel in the ICMP packet's own header.
                id: inp.metadata.id,
                dscp: 0,
                ttl: inp.metadata.ttl,
                ecn: Ecn::NonEcnCapable,
            },
            action,
            original_dst,
        }
    }
}

/// The carrier that a peer configured as `b` sends back into the tunnel for
/// the segment that a proxy configured as `a` took out of `i`.
pub open spec fn peer_encoded(a: Tunnel, b: Tunnel, i: Icmp) -> Icmp {
    let md = decoded_metadata(a, i.metadata, i.original_dst);
    Icmp {
        packet: i.packet,
        metadata: encoded_metadata(b, md),
        action: action_of(b.my_role),
        original_dst: return_address(b.my_role, md),
    }
}

/// A segment taken out of the tunnel by one proxy and put back in by its
/// peer comes out of the tunnel again: the frame the first proxy builds
/// yields the segment, and the ICMP message the peer sends decodes to the
/// same segment (all fields but the checksum, which is computed anew).
/// When the two proxies have opposite roles, the rest-of-header address
/// comes back unchanged as well.
pub proof fn lemma_tunnel_round_trip(
    a: Tunnel,
    b: Tunnel,
    i: Icmp,
    out: pcap::Data,
    back: Option<Icmp>,
)
    requires
        fits_in_icmp(i.packet),
        embellished_icmp(peer_encoded(a, b, i), out),
        extracted_icmp(out, back),
    ensures
        extracted_tcp(
            pcap::Data::LinkLayer(
                frame_of(
                    decoded_metadata(a, i.metadata, i.original_dst),
                    sessionlayer::Data::Tcp(i.packet),
                ),
            ),
        ) == Some(
            Tcp { segment: i.packet, metadata: decoded_metadata(a, i.metadata, i.original_dst) },
        ),
        back is Some,
        tcp::same_but_checksum(back.unwrap().packet, i.packet),
        back.unwrap().action == action_of(b.my_role),
        (a.my_role is Aware) != (b.my_role is Aware) ==> back.unwrap().original_dst
            == i.original_dst,
{
    let md = decoded_metadata(a, i.metadata, i.original_dst);
    crate::control_interfaces::stack::lemma_extract_embellish(md, sessionlayer::Data::Tcp(i.packet));
    let j = peer_encoded(a, b, i);
    tcp::lemma_decode_encoding(i.packet, tcp_pseudo_sum(j.metadata) as u32);
}

/// The decimal digit `d`, for `d < 10`.
pub open spec fn digit_text(d: nat) -> Seq<char> {
    if d == 0 {
        "0"@
    } else if d == 1 {
        "1"@
    } else if d == 2 {
        "2"@
    } else if d == 3 {
        "3"@
    } else if d == 4 {
        "4"@
    } else if d == 5 {
        "5"@
    } else if d == 6 {
        "6"@
    } else if d == 7 {
        "7"@
    } else if d == 8 {
        "8"@
    } else {
        "9"@
    }
}

/// `n` in decimal, without leading zeros.
pub open spec fn decimal_text(n: u8) -> Seq<char> {
    if n >= 100 {
        digit_text(n as nat / 100) + digit_text((n as nat / 10) % 10) + digit_text(n as nat % 10)
    } else if n >= 10 {
        digit_text(n as nat / 10) + digit_text(n as nat % 10)
    } else {
        digit_text(n as nat)
    }
}

/// An IPv4 address in dotted decimal.
pub open spec fn dotted_text(ip: [u8; 4]) -> Seq<char> {
    decimal_text(ip[0]) + "."@ + decimal_text(ip[1]) + "."@ + decimal_text(ip[2]) + "."@
        + decimal_text(ip[3])
}

/// The capture filter of the interface that carries ICMP: Echo messages
/// from the other proxy to this one, of the kind that the other proxy sends.
pub open spec fn clear_filter_text(t: Tunnel) -> Seq<char> {
    "ip proto \\icmp and dst net "@ + dotted_text(t.clear.ip) + " and src net "@ + dotted_text(
        t.other_proxy.ip,
    ) + " and icmp[icmptype] = "@ + match t.my_role {
        Role::Aware(_) => "icmp-echoreply"@,
        Role::Unaware { .. } => "icmp-echo"@,
    }
}

/// The capture filter of the interface that carries TCP: what the client
/// sends, or what is addressed to this proxy.
pub open spec fn meta_filter_text(t: Tunnel) -> Seq<char> {
    match t.my_role {
        Role::Unaware { .. } => "ip proto \\tcp and dst net "@ + dotted_text(t.meta.ip),
        Role::Aware(client) => "ip proto \\tcp and src net "@ + dotted_text(client.ip),
    }
}

/// Appends the decimal digit `d`.
fn push_digit(s: &mut String, d: u8)
    requires
        d < 10,
    ensures
        final(s)@ == old(s)@ + digit_text(d as nat),
{
    let text = if d == 0 {
        "0"
    } else if d == 1 {
        "1"
    } else if d == 2 {
        "2"
    } else if d == 3 {
        "3"
    } else if d == 4 {
        "4"
    } else if d == 5 {
        "5"
    } else if d == 6 {
        "6"
    } else if d == 7 {
        "7"
    } else if d == 8 {
        "8"
    } else {
        "9"
    };
    s.append(text);
}

/// Appends `n` in decimal.
fn push_decimal(s: &mut String, n: u8)
    ensures
        final(s)@ == old(s)@ + decimal_text(n),
{
    let ghost start = s@;
    if n >= 100 {
        push_digit(s, n / 100);
        push_digit(s, (n / 10) % 10);
        push_digit(s, n % 10);
    } else if n >= 10 {
        push_digit(s, n / 10);
        push_digit(s, n % 10);
    } else {
        push_digit(s, n);
    }
    assert(s@ =~= start + decimal_text(n));
}

/// Appends an IPv4 address in dotted decimal.
fn push_dotted(s: &mut String, ip: [u8; 4])
    ensures
        final(s)@ == old(s)@ + dotted_text(ip),
{
    let ghost start = s@;
    push_decimal(s, ip[0]);
    s.append(".");
    push_decimal(s, ip[1]);
    s.append(".");
    push_decimal(s, ip[2]);
    s.append(".");
    push_decimal(s, ip[3]);
    assert(s@ =~= start + dotted_text(ip));
}

impl Tunnel {
    /// The capture filter for the interface that carries ICMP.
    pub fn clear_filter(&self) -> (r: String)
        ensures
            r@ == clear_filter_text(*self),
    {
        let mut s = String::from_str("ip proto \\icmp and dst net ");
        push_dotted(&mut s, self.clear.ip);
        s.append(" and src net ");
        push_dotted(&mut s, self.other_proxy.ip);
        s.append(" and icmp[icmptype] = ");
        match self.my_role {
            Role::Aware(_) => s.append("icmp-echoreply"),
            Role::Unaware { .. } => s.append("icmp-echo"),
        }
        assert(s@ =~= clear_filter_text(*self));
        s
    }

    /// The capture filter for the interface that carries TCP.
    pub fn meta_filter(&self) -> (r: String)
        ensures
            r@ == meta_filter_text(*self),
    {
        match self.my_role {
            Role::Unaware { .. } => {
                let mut s = String::from_str("ip proto \\tcp and dst net ");
                push_dotted(&mut s, self.meta.ip);
                s
            },
            Role::Aware(client) => {
                let mut s = String::from_str("ip proto \\tcp and src net ");
                push_dotted(&mut s, client.ip);
                s
            },
        }
    }
}

} // verus!
