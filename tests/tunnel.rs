use icmp_tcp_tunnel::agents::proxy::{forward, Outbound, TunnelData};
use icmp_tcp_tunnel::control_interfaces::pcap::{self, decode_frame, CaptureError, FdPoll, FdStep, Poller, State};
use icmp_tcp_tunnel::control_interfaces::stack::Metadata;
use icmp_tcp_tunnel::control_interfaces::tunnels::icmp_tcp::{EndpointIdentity, Icmp, Role, Tcp, Tunnel};
use icmp_tcp_tunnel::control_interfaces::tunnels::{Tunnel as TunnelMapping, Tunnelable};
use icmp_tcp_tunnel::protocols::ip::Ecn;
use icmp_tcp_tunnel::protocols::ipv4::FragmentOffset;
use icmp_tcp_tunnel::protocols::{ethernet, icmp, ip, linklayer, networklayer, sessionlayer};

const MC: [u8; 6] = [0xc0, 0, 0, 0, 0, 5];
const M1: [u8; 6] = [0xa0, 0, 0, 0, 0, 1];
const M2: [u8; 6] = [0xa0, 0, 0, 0, 0, 2];
const M3: [u8; 6] = [0xa0, 0, 0, 0, 0, 3];
const G: [u8; 6] = [0xee, 0, 0, 0, 0, 1];

fn config_a() -> Tunnel {
    Tunnel {
        other_proxy: EndpointIdentity { ip: [20, 0, 0, 2], mac: M3 },
        clear: EndpointIdentity { ip: [10, 0, 0, 1], mac: M1 },
        meta: EndpointIdentity { ip: [20, 0, 0, 1], mac: M2 },
        my_role: Role::Aware(EndpointIdentity { ip: [10, 0, 0, 5], mac: MC }),
    }
}

fn config_b() -> Tunnel {
    Tunnel {
        other_proxy: EndpointIdentity { ip: [10, 0, 0, 1], mac: M1 },
        clear: EndpointIdentity { ip: [20, 0, 0, 2], mac: M3 },
        meta: EndpointIdentity { ip: [30, 0, 0, 1], mac: [0xb0, 0, 0, 0, 0, 1] },
        my_role: Role::Unaware { gateway: G },
    }
}

fn client_frame(payload: &[u8]) -> Vec<u8> {
    let total = 40 + payload.len();
    let mut v = vec![0xa0, 0, 0, 0, 0, 9, 0xc0, 0, 0, 0, 0, 5, 0x08, 0x00];
    v.extend_from_slice(&[
        0x45, 0x00, (total >> 8) as u8, total as u8, 0x12, 0x34, 0x40, 0x00, 0x33, 0x06, 0, 0, 10,
        0, 0, 5, 8, 8, 8, 8,
    ]);
    v.extend_from_slice(&[
        0xc3, 0x50, 0x00, 0x50, 0, 0, 0, 1, 0, 0, 0, 0, 0x50, 0x02, 0x72, 0x10, 0, 0, 0, 0,
    ]);
    v.extend_from_slice(payload);
    v
}

fn on_the_wire(d: pcap::Data) -> pcap::Data {
    let pcap::Data::LinkLayer(l) = d;
    assert!(l.is_encodable());
    decode_frame(&l.into_buffer((0, 0))).unwrap()
}

fn ipv4_of(d: &pcap::Data) -> &icmp_tcp_tunnel::protocols::ipv4::Packet {
    match d {
        pcap::Data::LinkLayer(linklayer::Data::Ethernet(ethernet::Frame {
            next: networklayer::Data::Ip(ip::Packet::V4(p)),
            ..
        })) => p,
        _ => panic!("expected Ethernet/IPv4"),
    }
}

fn frame_macs(d: &pcap::Data) -> ([u8; 6], [u8; 6]) {
    match d {
        pcap::Data::LinkLayer(linklayer::Data::Ethernet(f)) => (f.src, f.dst),
    }
}

#[test]
fn tunnel_symmetry_scenario() {
    let mut a = config_a();
    let mut b = config_b();
    let captured = decode_frame(&client_frame(b"GET")).unwrap();
    let tcp = Tcp::extract(captured).unwrap();
    let icmp = a.encode(tcp);
    assert_eq!(icmp.action, icmp::Action::EchoRequest);
    assert_eq!(icmp.original_dst, [8, 8, 8, 8]);
    let wire = on_the_wire(icmp.embellish());
    {
        let p = ipv4_of(&wire);
        assert_eq!(p.src, [10, 0, 0, 1]);
        assert_eq!(p.dst, [20, 0, 0, 2]);
        assert_eq!(p.id, 0x1234);
        assert_eq!(p.ttl, 0x33);
        match &p.next {
            sessionlayer::Data::Icmp(q) => {
                assert_eq!(q.action, icmp::Action::EchoRequest);
                assert_eq!(q.rest, [8, 8, 8, 8]);
                assert_eq!(q.data.len(), 23);
            }
            _ => panic!("expected ICMP"),
        }
        assert_eq!(frame_macs(&wire), (M1, M3));
    }
    let received = Icmp::extract(wire).unwrap();
    assert_eq!(received.packet.payload, b"GET".to_vec());
    let out = on_the_wire(b.decode(received).embellish());
    let p = ipv4_of(&out);
    assert_eq!(p.src, [30, 0, 0, 1]);
    assert_eq!(p.dst, [8, 8, 8, 8]);
    assert_eq!(p.id, 0x1234);
    assert_eq!(p.ttl, 0x33);
    assert_eq!(frame_macs(&out), ([0xb0, 0, 0, 0, 0, 1], G));
    match &p.next {
        sessionlayer::Data::Tcp(s) => {
            assert_eq!(s.src_port, 50000);
            assert_eq!(s.dst_port, 80);
            assert!(s.syn);
            assert_eq!(s.payload, b"GET".to_vec());
        }
        _ => panic!("expected TCP"),
    }
}

#[test]
fn tunnel_reply_path_restores_client() {
    // the reply travels from B (unaware) back to A (aware)
    let mut a = config_a();
    let mut b = config_b();
    let mut reply = client_frame(b"OK");
    // 8.8.8.8 -> 30.0.0.1
    reply[26..30].copy_from_slice(&[8, 8, 8, 8]);
    reply[30..34].copy_from_slice(&[30, 0, 0, 1]);
    let tcp = Tcp::extract(decode_frame(&reply).unwrap()).unwrap();
    let icmp = b.encode(tcp);
    assert_eq!(icmp.action, icmp::Action::EchoResponse);
    assert_eq!(icmp.original_dst, [8, 8, 8, 8]);
    let received = Icmp::extract(on_the_wire(icmp.embellish())).unwrap();
    let out = on_the_wire(a.decode(received).embellish());
    let p = ipv4_of(&out);
    assert_eq!(p.src, [8, 8, 8, 8]);
    assert_eq!(p.dst, [10, 0, 0, 5]);
    assert_eq!(frame_macs(&out), (M2, MC));
}

#[test]
fn decoded_frame_has_fixed_header_fields() {
    let mut a = config_a();
    let received = Icmp {
        packet: Tcp::extract(decode_frame(&client_frame(b"x")).unwrap()).unwrap().segment,
        action: icmp::Action::EchoResponse,
        original_dst: [1, 2, 3, 4],
        metadata: Metadata {
            mac_src: M3,
            mac_dst: M1,
            ip_src: [20, 0, 0, 2],
            ip_dst: [10, 0, 0, 1],
            mf: true,
            fragment_offset: FragmentOffset::Meaningfull(5),
            id: 77,
            ttl: 9,
            dscp: 3,
            ecn: Ecn::CongestionEncountered,
        },
    };
    let t = a.decode(received);
    assert_eq!(t.metadata.ip_src, [1, 2, 3, 4]);
    assert_eq!(t.metadata.ip_dst, [10, 0, 0, 5]);
    assert_eq!(t.metadata.mac_src, M2);
    assert_eq!(t.metadata.mac_dst, MC);
    assert_eq!(t.metadata.id, 77);
    assert_eq!(t.metadata.ttl, 9);
    assert_eq!(t.metadata.dscp, 0);
    assert!(!t.metadata.mf);
    assert_eq!(t.metadata.fragment_offset, FragmentOffset::Arbitrary(0));
    assert_eq!(t.metadata.ecn, Ecn::NonEcnCapable);
}

#[test]
fn icmp_extract_rejects_non_tcp_data() {
    let mut f = client_frame(b"");
    // turn the IPv4 payload into an ICMP echo reply carrying 3 bytes
    f[23] = 0x01;
    let icmp = [0u8, 0, 0, 0, 0, 0, 0, 0, 1, 2, 3];
    f.truncate(34);
    f.extend_from_slice(&icmp);
    let total = 20 + icmp.len();
    f[16] = (total >> 8) as u8;
    f[17] = total as u8;
    let d = decode_frame(&f).unwrap();
    assert!(Icmp::extract(d).is_none());
    assert!(Tcp::extract(decode_frame(&f).unwrap()).is_none());
}

#[test]
fn proxy_forwards_both_ways() {
    let mut a = config_a();
    let tcp = Tcp::extract(decode_frame(&client_frame(b"abc")).unwrap()).unwrap();
    match forward(&mut a, TunnelData::Plain(tcp)) {
        Some(Outbound::Meta(d)) => {
            let i = Icmp::extract(on_the_wire(d)).unwrap();
            assert_eq!(i.packet.payload, b"abc".to_vec());
            match forward(&mut a, TunnelData::Meta(i)) {
                Some(Outbound::Plain(d)) => {
                    let p = ipv4_of(&d);
                    assert_eq!(p.src, [8, 8, 8, 8]);
                    assert_eq!(p.dst, [10, 0, 0, 5]);
                }
                _ => panic!("expected a plain frame"),
            }
        }
        _ => panic!("expected a tunnelled frame"),
    }
}

#[test]
fn proxy_drops_segment_too_large_for_icmp() {
    let mut a = config_a();
    let mut tcp = Tcp::extract(decode_frame(&client_frame(b"")).unwrap()).unwrap();
    tcp.segment.payload = vec![0u8; 0xFFFF - 40];
    assert!(!Icmp { packet: tcp.segment, action: icmp::Action::EchoRequest, original_dst: [0; 4], metadata: tcp.metadata }
        .is_carriable());
    let mut tcp = Tcp::extract(decode_frame(&client_frame(b"")).unwrap()).unwrap();
    tcp.segment.payload = vec![0u8; 0xFFFF - 40];
    assert!(forward(&mut a, TunnelData::Plain(tcp)).is_none());
}

#[test]
fn capture_error_after_spurious_readiness() {
    let mut poller = Poller { state: State::WaitingForFd };
    assert!(!poller.dispatch_first());
    assert_eq!(poller.fd_polled(FdPoll::Ready), FdStep::Dispatch);
    assert_eq!(Poller::dispatch_after_ready(0), Err(CaptureError::CouldNotCaptureAfterFdReady));
    // the next poll starts again with a dispatch
    assert_eq!(poller.state, State::Idle);
    assert!(poller.dispatch_first());
    assert_eq!(Poller::first_dispatch(1), Some(Ok(())));
}

#[test]
fn capture_decisions() {
    let mut poller = Poller::new();
    assert!(poller.dispatch_first());
    assert_eq!(Poller::first_dispatch(0), None);
    assert_eq!(Poller::first_dispatch(-1), Some(Err(CaptureError::CouldNotCapture)));
    assert_eq!(poller.fd_polled(FdPoll::Pending), FdStep::Suspend);
    assert_eq!(poller.state, State::WaitingForFd);
    assert_eq!(poller.fd_polled(FdPoll::Failed), FdStep::Fail(CaptureError::CouldNotReadSelectableFd));
    assert_eq!(poller.state, State::Idle);
    assert_eq!(Poller::dispatch_after_ready(1), Ok(()));
}

#[test]
fn capture_decode_error_wrapped() {
    assert_eq!(
        decode_frame(&[0u8; 3]).unwrap_err(),
        CaptureError::LinkLayer(linklayer::Error::Ethernet(ethernet::Error::InvalidLength))
    );
    let e: linklayer::Error = ethernet::Error::UnknownNetworkProtocol.into();
    assert_eq!(e, linklayer::Error::Ethernet(ethernet::Error::UnknownNetworkProtocol));
}

#[test]
fn capture_filters_follow_role() {
    let a = config_a();
    assert_eq!(
        a.clear_filter(),
        "ip proto \\icmp and dst net 10.0.0.1 and src net 20.0.0.2 and icmp[icmptype] = icmp-echoreply"
    );
    assert_eq!(a.meta_filter(), "ip proto \\tcp and src net 10.0.0.5");
    let b = config_b();
    assert_eq!(
        b.clear_filter(),
        "ip proto \\icmp and dst net 20.0.0.2 and src net 10.0.0.1 and icmp[icmptype] = icmp-echo"
    );
    assert_eq!(b.meta_filter(), "ip proto \\tcp and dst net 30.0.0.1");
    let mut c = config_b();
    c.meta.ip = [192, 168, 100, 255];
    assert_eq!(c.meta_filter(), "ip proto \\tcp and dst net 192.168.100.255");
}
