use icmp_tcp_tunnel::protocols::ethernet::Frame;
use icmp_tcp_tunnel::protocols::ip::Ecn;
use icmp_tcp_tunnel::protocols::ipv4::FragmentOffset;
use icmp_tcp_tunnel::protocols::{arp, ethernet, icmp, ip, ipv4, ipv6, networklayer, sessionlayer, tcp, udp};
use icmp_tcp_tunnel::utils::ip_checksum::calc_checksum;

fn tcp_bytes(payload: &[u8]) -> Vec<u8> {
    let mut v = vec![
        0x12, 0x34, 0x00, 0x50, 0x01, 0x02, 0x03, 0x04, 0x05, 0x06, 0x07, 0x08, 0x50, 0x18, 0xFF,
        0xFF, 0xAB, 0xCD, 0x00, 0x07,
    ];
    v.extend_from_slice(payload);
    v
}

fn ipv4_bytes(proto: u8, payload: &[u8]) -> Vec<u8> {
    let total = 20 + payload.len();
    let mut v = vec![
        0x45,
        0x00,
        (total >> 8) as u8,
        total as u8,
        0x1c,
        0x46,
        0x40,
        0x00,
        0x40,
        proto,
        0x11,
        0x11,
        10,
        0,
        0,
        5,
        8,
        8,
        8,
        8,
    ];
    v.extend_from_slice(payload);
    v
}

fn ethernet_bytes(ether_type: u16, payload: &[u8]) -> Vec<u8> {
    let mut v = vec![1, 1, 1, 1, 1, 1, 2, 2, 2, 2, 2, 2, (ether_type >> 8) as u8, ether_type as u8];
    v.extend_from_slice(payload);
    v
}

#[test]
fn ipv4_header_fields_decode() {
    let mut b = vec![
        0x45, 0x00, 0x00, 0x28, 0x1c, 0x46, 0x40, 0x00, 0x40, 0x06, 0xb1, 0xe6, 0xc0, 0xa8, 0x00,
        0x01, 0xc0, 0xa8, 0x00, 0xc7,
    ];
    b.extend_from_slice(&tcp_bytes(&[]));
    let p = ipv4::Packet::from_buffer(&b).unwrap();
    assert_eq!(p.src, [192, 168, 0, 1]);
    assert_eq!(p.dst, [192, 168, 0, 199]);
    assert_eq!(p.id, 0x1c46);
    assert_eq!(p.ttl, 64);
    assert!(!p.mf);
    assert_eq!(p.fragment_offset, FragmentOffset::Arbitrary(0));
    assert_eq!(p.checksum, Some(0xb1e6));
    assert!(matches!(p.next, sessionlayer::Data::Tcp(_)));
}

#[test]
fn ipv4_checksum_recomputed_when_absent() {
    let mut b = vec![
        0x45, 0x00, 0x00, 0x28, 0x1c, 0x46, 0x40, 0x00, 0x40, 0x06, 0xb1, 0xe6, 0xc0, 0xa8, 0x00,
        0x01, 0xc0, 0xa8, 0x00, 0xc7,
    ];
    b.extend_from_slice(&tcp_bytes(&[]));
    let mut p = ipv4::Packet::from_buffer(&b).unwrap();
    p.checksum = None;
    let out = p.into_buffer((0, 0));
    // the one's-complement sum of this header's other words folds to 0x638e
    assert_eq!(&out[10..12], &[0x9c, 0x71]);
    assert_eq!(calc_checksum(&out[..20], 0), 0);
    assert_eq!(&out[..10], &b[..10]);
    assert_eq!(&out[12..36], &b[12..36]);
    assert_eq!(&out[38..], &b[38..]);
}

#[test]
fn icmp_checksum_computation() {
    let mut p = icmp::Packet {
        action: icmp::Action::EchoRequest,
        checksum: 0,
        rest: [0, 1, 0, 1],
        data: vec![0x61, 0x62, 0x63, 0x64],
    };
    p.calc_checksum();
    let sum: u32 = 0x0800 + 0x0000 + 0x0001 + 0x0001 + 0x6162 + 0x6364;
    let folded = (sum >> 16) + (sum & 0xFFFF);
    assert_eq!(p.checksum, !(folded as u16));
    assert_eq!(p.checksum, 0x3337);
}

#[test]
fn unknown_session_protocol_kept() {
    let payload = [9u8, 8, 7, 6, 5];
    let b = ipv4_bytes(0x84, &payload);
    let p = ipv4::Packet::from_buffer(&b).unwrap();
    match &p.next {
        sessionlayer::Data::UnknownIpProtocol(proto, bytes) => {
            assert_eq!(*proto, 0x84);
            assert_eq!(bytes, &payload.to_vec());
        }
        _ => panic!("expected an unknown protocol"),
    }
    let out = p.into_buffer((0, 0));
    assert_eq!(out[9], 0x84);
    assert_eq!(&out[20..], &payload);
    assert_eq!(out, b);
}

#[test]
fn fragment_offset_preserved_with_df() {
    let mut b = ipv4_bytes(0x84, &[1, 2]);
    b[6] = 0x41;
    b[7] = 0x23;
    let p = ipv4::Packet::from_buffer(&b).unwrap();
    assert_eq!(p.fragment_offset, FragmentOffset::Arbitrary(0x0123));
    let out = p.into_buffer((0, 0));
    assert_eq!(out[6], 0x41);
    assert_eq!(out[7], 0x23);
}

#[test]
fn fragment_offset_meaningful_without_df() {
    let mut b = ipv4_bytes(0x84, &[1, 2]);
    b[6] = 0x21;
    b[7] = 0x00;
    let p = ipv4::Packet::from_buffer(&b).unwrap();
    assert!(p.mf);
    assert_eq!(p.fragment_offset, FragmentOffset::Meaningfull(0x0100));
    let out = p.into_buffer((0, 0));
    assert_eq!(&out[6..8], &[0x21, 0x00]);
}

#[test]
fn ecn_round_trips_on_two_bits() {
    for raw in 0u8..=3 {
        let e = Ecn::from_u8(raw).unwrap();
        assert_eq!(e.to_u8(), raw);
    }
    assert_eq!(Ecn::from_u8(1).unwrap(), Ecn::EcnCapable(true));
    assert_eq!(Ecn::from_u8(2).unwrap(), Ecn::EcnCapable(false));
    assert!(Ecn::from_u8(4).is_err());
}

#[test]
fn tcp_frame_round_trip_except_checksum() {
    let b = ethernet_bytes(0x0800, &ipv4_bytes(0x06, &tcp_bytes(b"hi")));
    let f = Frame::from_raw_slice(&b).unwrap();
    let out = f.into_buffer((0, 0));
    assert_eq!(out.len(), b.len());
    for i in 0..b.len() {
        if i != 50 && i != 51 {
            assert_eq!(out[i], b[i], "byte {}", i);
        }
    }
    // the recomputed TCP checksum verifies over the pseudo-header
    let seg = &out[34..];
    let pseudo: u32 = 0x0a00 + 0x0005 + 0x0808 + 0x0808 + 0x0006 + seg.len() as u32;
    assert_eq!(calc_checksum(seg, pseudo), 0);
}

#[test]
fn udp_frame_round_trip() {
    let udp = vec![0x00, 0x35, 0x04, 0x00, 0x00, 0x0b, 0x12, 0x34, 0xaa, 0xbb, 0xcc];
    let b = ethernet_bytes(0x0800, &ipv4_bytes(0x11, &udp));
    let f = Frame::from_raw_slice(&b).unwrap();
    assert_eq!(f.into_buffer((0, 0)), b);
}

#[test]
fn arp_frame_round_trip() {
    let arp = vec![
        0x00, 0x01, 0x08, 0x00, 6, 4, 0x00, 0x01, 1, 2, 3, 4, 5, 6, 10, 0, 0, 1, 0, 0, 0, 0, 0,
        0, 10, 0, 0, 2,
    ];
    let b = ethernet_bytes(0x0806, &arp);
    let f = Frame::from_raw_slice(&b).unwrap();
    match &f.next {
        networklayer::Data::Arp(p) => assert_eq!(p.action, arp::Action::Request),
        _ => panic!("expected ARP"),
    }
    assert_eq!(f.into_buffer((0, 0)), b);
}

#[test]
fn reserve_convention_pads_both_ends() {
    let b = ipv4_bytes(0x84, &[1, 2, 3]);
    let p = ipv4::Packet::from_buffer(&b).unwrap();
    let out = p.into_buffer((5, 3));
    assert_eq!(out.len(), 5 + b.len() + 3);
    assert_eq!(&out[..5], &[0; 5]);
    assert_eq!(&out[5..5 + b.len()], &b[..]);
    assert_eq!(&out[5 + b.len()..], &[0; 3]);
}

#[test]
fn ethernet_short_frame_rejected() {
    let b = [0u8; 14];
    assert_eq!(Frame::from_raw_slice(&b).unwrap_err(), ethernet::Error::InvalidLength);
}

#[test]
fn ethernet_unknown_ether_type_rejected() {
    let b = ethernet_bytes(0x86DD, &[0x60; 10]);
    assert_eq!(Frame::from_raw_slice(&b).unwrap_err(), ethernet::Error::UnknownNetworkProtocol);
}

#[test]
fn ipv4_bad_length_fields_rejected() {
    let mut b = ipv4_bytes(0x84, &[1, 2]);
    b[0] = 0x44;
    assert_eq!(ipv4::Packet::from_buffer(&b).unwrap_err(), ipv4::Error::InvalidLengthField);
    let mut c = ipv4_bytes(0x84, &[1, 2]);
    c[3] = 0x20;
    assert_eq!(ipv4::Packet::from_buffer(&c).unwrap_err(), ipv4::Error::InvalidLengthField);
    assert_eq!(ipv4::Packet::from_buffer(&c[..19]).unwrap_err(), ipv4::Error::InvalidLength);
}

#[test]
fn ipv4_session_error_wrapped() {
    let b = ipv4_bytes(0x06, &[0u8; 10]);
    assert_eq!(
        ipv4::Packet::from_buffer(&b).unwrap_err(),
        ipv4::Error::SessionErr(sessionlayer::Error::Tcp(tcp::Error::InvalidLength))
    );
}

#[test]
fn ip_version_dispatch() {
    assert_eq!(ip::Packet::from_buffer(&[]).unwrap_err(), ip::Error::InvalidLength);
    assert_eq!(ip::Packet::from_buffer(&[0x55; 30]).unwrap_err(), ip::Error::UnknownProtocolVersion);
    assert_eq!(
        ip::Packet::from_buffer(&[0x45; 10]).unwrap_err(),
        ip::Error::V4Err(ipv4::Error::InvalidLength)
    );
}

#[test]
fn tcp_bad_data_offset_rejected() {
    let mut b = tcp_bytes(&[]);
    b[12] = 0x60;
    assert_eq!(tcp::Segment::from_buffer(&b).unwrap_err(), tcp::Error::InvalidLengthField);
    b[12] = 0x40;
    assert_eq!(tcp::Segment::from_buffer(&b).unwrap_err(), tcp::Error::InvalidLengthField);
    assert_eq!(tcp::Segment::from_buffer(&b[..19]).unwrap_err(), tcp::Error::InvalidLength);
}

#[test]
fn tcp_fields_and_flags_decode() {
    let mut b = tcp_bytes(b"xyz");
    b[12] = 0x61;
    b[13] = 0xE5;
    b.splice(20..20, [1u8, 1, 1, 0].iter().cloned());
    let s = tcp::Segment::from_buffer(&b).unwrap();
    assert_eq!(s.src_port, 0x1234);
    assert_eq!(s.dst_port, 80);
    assert_eq!(s.seq_no, 0x01020304);
    assert_eq!(s.ack_no, tcp::Ack::NotPresent(0x05060708));
    assert_eq!(s.urgent_data, tcp::Urgent::MeaningfullIndex(7));
    assert!(s.ns && s.cwr && s.ece && !s.psh && s.rst && !s.syn && s.fin);
    assert_eq!(s.options, vec![1, 1, 1, 0]);
    assert_eq!(s.payload, b"xyz".to_vec());
    assert_eq!(s.checksum, 0xABCD);
}

#[test]
fn udp_errors() {
    assert_eq!(udp::Datagram::from_buffer(&[0; 7]).unwrap_err(), udp::Error::InvalidLength);
    let too_long = [0, 1, 0, 2, 0, 20, 0, 0, 1];
    assert_eq!(udp::Datagram::from_buffer(&too_long).unwrap_err(), udp::Error::InvalidLengthField);
    let too_short = [0, 1, 0, 2, 0, 4, 0, 0, 1];
    assert_eq!(udp::Datagram::from_buffer(&too_short).unwrap_err(), udp::Error::InvalidLengthField);
}

#[test]
fn udp_checksum_computed_when_absent() {
    let d = udp::Datagram { src_port: 53, dst_port: 1024, checksum: None, payload: vec![0xaa, 0xbb, 0xcc] };
    let pseudo: u32 = 0x0a00 + 0x0005 + 0x0808 + 0x0808 + 0x0011;
    let out = d.into_buffer((0, 0), pseudo);
    assert_eq!(&out[4..6], &[0, 11]);
    assert_eq!(calc_checksum(&out, pseudo + 11), 0);
}

#[test]
fn icmp_errors() {
    assert_eq!(icmp::Packet::from_buffer(&[8, 0, 0]).unwrap_err(), icmp::Error::InvalidLength);
    assert_eq!(icmp::Packet::from_buffer(&[3, 0, 0, 0, 0, 0, 0, 0]).unwrap_err(), icmp::Error::UnknownAction);
    let p = icmp::Packet::from_buffer(&[0, 0, 1, 2, 3, 4, 5, 6, 7]).unwrap();
    assert_eq!(p.action, icmp::Action::EchoResponse);
    assert_eq!(p.rest, [3, 4, 5, 6]);
    assert_eq!(p.data, vec![7]);
}

#[test]
fn arp_short_addresses_rejected() {
    let b = [0, 1, 8, 0, 6, 4, 0, 1, 0, 0, 0];
    assert_eq!(arp::Packet::from_buffer(&b).unwrap_err(), arp::Error::InvalidLengthFields);
    assert_eq!(arp::Packet::from_buffer(&b[..5]).unwrap_err(), arp::Error::InvalidLength);
}

#[test]
fn arp_error_kinds() {
    let good = vec![0, 1, 8, 0, 6, 4, 0, 2, 1, 2, 3, 4, 5, 6, 1, 2, 3, 4, 6, 5, 4, 3, 2, 1, 4, 3, 2, 1];
    assert!(arp::Packet::from_buffer(&good).is_ok());
    let mut b = good.clone();
    b[1] = 2;
    assert_eq!(arp::Packet::from_buffer(&b).unwrap_err(), arp::Error::UnknownLinkProtocol);
    let mut b = good.clone();
    b[3] = 1;
    assert_eq!(arp::Packet::from_buffer(&b).unwrap_err(), arp::Error::UnknownNetworkProtocol);
    let mut b = good.clone();
    b[7] = 3;
    assert_eq!(arp::Packet::from_buffer(&b).unwrap_err(), arp::Error::InvalidOperation);
    let mut b = good.clone();
    b[4] = 5;
    assert_eq!(arp::Packet::from_buffer(&b).unwrap_err(), arp::Error::CantParseLinkAddress);
    let mut b = good.clone();
    b[5] = 3;
    assert_eq!(arp::Packet::from_buffer(&b).unwrap_err(), arp::Error::CantParseNetworkAddress);
}

#[test]
fn ipv6_round_trip_with_tcp() {
    let seg = tcp_bytes(b"v6");
    let mut b = vec![0x6A, 0xB1, 0x23, 0x45, 0x00, seg.len() as u8, 0x06, 0x40];
    b.extend_from_slice(&[0x20; 16]);
    b.extend_from_slice(&[0x30; 16]);
    b.extend_from_slice(&seg);
    let p = ip::Packet::from_buffer(&b).unwrap();
    match &p {
        ip::Packet::V6(q) => {
            assert_eq!(q.traffic, 0xAB);
            assert_eq!(q.flow, 0x12345);
            assert_eq!(q.ttl, 0x40);
        }
        _ => panic!("expected IPv6"),
    }
    let out = p.into_buffer((0, 0));
    assert_eq!(out.len(), b.len());
    for i in 0..b.len() {
        if i != 56 && i != 57 {
            assert_eq!(out[i], b[i], "byte {}", i);
        }
    }
}

#[test]
fn ipv6_errors() {
    assert_eq!(ipv6::Packet::from_buffer(&[0x60; 39]).unwrap_err(), ipv6::Error::UnknownHeaderLength);
    let mut b = vec![0x60u8; 40];
    b[4] = 0;
    b[5] = 1;
    assert_eq!(ipv6::Packet::from_buffer(&b).unwrap_err(), ipv6::Error::InvalidPayloadLength);
}

#[test]
fn encodable_checks() {
    let b = ethernet_bytes(0x0800, &ipv4_bytes(0x06, &tcp_bytes(b"hi")));
    let f = Frame::from_raw_slice(&b).unwrap();
    assert!(f.is_encodable());
    let mut s = tcp::Segment::from_buffer(&tcp_bytes(&[])).unwrap();
    s.options = vec![1, 2, 3];
    assert!(!s.is_encodable());
}

#[test]
fn packet_from_metadata_gets_valid_checksum() {
    let p = ipv4::Packet::from_metadata(
        [10, 0, 0, 1],
        [20, 0, 0, 2],
        0xbeef,
        0x2e,
        Ecn::EcnCapable(false),
        false,
        FragmentOffset::Arbitrary(0),
        17,
        sessionlayer::Data::UnknownIpProtocol(0x99, vec![1, 2, 3, 4]),
    );
    assert_eq!(p.checksum, None);
    let out = p.into_buffer((0, 0));
    assert_eq!(out.len(), 24);
    assert_eq!(out[0], 0x45);
    assert_eq!(out[1], (0x2e << 2) | 0b10);
    assert_eq!(&out[2..4], &[0, 24]);
    assert_eq!(&out[4..6], &[0xbe, 0xef]);
    assert_eq!(out[6], 0x40);
    assert_eq!(out[8], 17);
    assert_eq!(out[9], 0x99);
    assert_eq!(calc_checksum(&out[..20], 0), 0);
}
