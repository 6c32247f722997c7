use vnts_core::allocator::{Error, RegistrationRequest};
use vnts_core::checksum::checksum;
use vnts_core::directory::broadcast_targets;
use vnts_core::dispatch::Route;
use vnts_core::entity::{IpAddress, PeerAddr};
use vnts_core::envelope::{
    build_reply, parse_broadcast, FrameError, NetPacket, ADDR_REQUEST, ADDR_RESPONSE, CONTROL,
    ENCRYPTED_BIT, HANDSHAKE_REQUEST, IPV4, IPV4_BROADCAST, IP_TURN, PING, POLL_DEVICE_LIST, PONG,
    REGISTRATION_REQUEST, SECRET_HANDSHAKE_RESPONSE, SERVICE,
};
use vnts_core::handle::Action;
use vnts_core::handlers::{control_addr_request, handshake_reply, pong, ClientStatusReport};
use vnts_core::icmp::gateway_icmp_reply;
use vnts_core::server::{ConfigInfo, ServerPacketHandler};

const GATEWAY: u32 = 0x0A00_0001;

fn handler() -> ServerPacketHandler {
    ServerPacketHandler::new(ConfigInfo {
        gateway: GATEWAY,
        netmask: 0xFFFF_FF00,
        broadcast: 0x0A00_00FF,
        white_token: None,
    })
}

fn request(device_id: &str, client_secret: bool) -> RegistrationRequest {
    RegistrationRequest {
        token: "T".to_string(),
        device_id: device_id.to_string(),
        name: device_id.to_string(),
        version: "1.0".to_string(),
        virtual_ip: 0,
        client_secret,
        allow_ip_change: false,
        is_fast: false,
    }
}

fn v4(a: u8, b: u8, c: u8, d: u8, port: u16) -> PeerAddr {
    PeerAddr { ip: IpAddress::V4(u32::from_be_bytes([a, b, c, d])), port }
}

fn frame(protocol: u8, transport: u8, flags: u8, payload: &[u8]) -> NetPacket {
    let mut b = vec![flags, protocol, transport, 0, 0, 0, 0, 0, 0, 0, 0, 0];
    b.extend_from_slice(payload);
    NetPacket::new(b).unwrap()
}

#[test]
fn scenario_ping_carries_epoch() {
    let mut h = handler();
    let a = v4(203, 0, 113, 5, 4000);
    h.register(&request("A", false), a, None, 0).unwrap();
    h.register(&request("B", false), v4(198, 51, 100, 7, 5000), None, 0).unwrap();
    let ctx = h.get_context(a).unwrap();
    let ping = frame(CONTROL, PING, 1, &[0, 0, 0, 0]);
    let p = h.control_ping(ctx, &ping).unwrap();
    assert_eq!(p.protocol(), CONTROL);
    assert_eq!(p.transport_protocol(), PONG);
    assert_eq!(p.payload(), vec![0, 0, 0, 2]);
}

#[test]
fn pong_truncates_epoch_and_keeps_time() {
    let ping = frame(CONTROL, PING, 1, &[0x12, 0x34, 9, 9]);
    let p = pong(&ping, 0x1_0005).unwrap();
    assert_eq!(p.payload(), vec![0x12, 0x34, 0, 5]);
    let long = frame(CONTROL, PING, 1, &[1, 2, 3, 4, 5]);
    assert!(matches!(pong(&long, 1), Err(FrameError::TooLong)));
}

#[test]
fn addr_request_reflects_address() {
    let p = control_addr_request(v4(203, 0, 113, 5, 4000)).unwrap();
    assert_eq!(p.protocol(), CONTROL);
    assert_eq!(p.transport_protocol(), ADDR_RESPONSE);
    assert_eq!(p.payload(), vec![203, 0, 113, 5, 0x0F, 0xA0]);
    let mapped = PeerAddr { ip: IpAddress::V6(0xffff_c633_6407), port: 5000 };
    assert_eq!(control_addr_request(mapped).unwrap().payload(), vec![198, 51, 100, 7, 0x13, 0x88]);
    let pure = PeerAddr { ip: IpAddress::V6(1), port: 5000 };
    assert!(control_addr_request(pure).is_none());
}

#[test]
fn reply_frame_layout() {
    let p = build_reply(SERVICE, 6, &[7, 8, 9]);
    assert_eq!(p.to_bytes(), vec![1, SERVICE, 6, 0, 0, 0, 0, 0, 0, 0, 0, 0, 7, 8, 9]);
    assert!(!p.is_encrypt());
    assert_eq!(NetPacket::new(vec![0; 11]).err(), Some(FrameError::TooShort));
}

#[test]
fn envelope_fields_round_trip() {
    let mut p = frame(IP_TURN, IPV4, 0, &[1, 2]);
    p.set_source(0x0A00_0002);
    p.set_destination(0x0A00_0003);
    p.set_gateway_flag(true);
    assert_eq!(p.source(), 0x0A00_0002);
    assert_eq!(p.destination(), 0x0A00_0003);
    assert!(p.is_gateway());
    assert!(!p.is_encrypt());
    assert_eq!(p.payload(), vec![1, 2]);
}

fn echo_request(src: [u8; 4], dst: [u8; 4]) -> Vec<u8> {
    let mut ip = vec![0x45, 0, 0, 28, 0, 1, 0, 0, 64, 1, 0, 0];
    ip.extend_from_slice(&src);
    ip.extend_from_slice(&dst);
    ip.extend_from_slice(&[8, 0, 0, 0, 0x12, 0x34, 0, 1]);
    ip
}

fn ones_complement_ok(b: &[u8]) -> bool {
    let mut sum: u32 = 0;
    for c in b.chunks(2) {
        let w = (c[0] as u32) << 8 | *c.get(1).unwrap_or(&0) as u32;
        sum += w;
    }
    while sum > 0xffff {
        sum = (sum & 0xffff) + (sum >> 16);
    }
    sum == 0xffff
}

#[test]
fn icmp_echo_to_gateway_is_answered() {
    let ip = echo_request([10, 0, 0, 2], [10, 0, 0, 1]);
    let mut p = frame(IP_TURN, IPV4, 1, &ip);
    p.set_source(0x0A00_0002);
    p.set_destination(GATEWAY);
    let r = gateway_icmp_reply(&p, GATEWAY).unwrap();
    assert_eq!(r.source(), GATEWAY);
    assert_eq!(r.destination(), 0x0A00_0002);
    assert!(r.is_gateway());
    let out = r.payload();
    assert_eq!(&out[12..16], &[10, 0, 0, 1]);
    assert_eq!(&out[16..20], &[10, 0, 0, 2]);
    assert_eq!(out[20], 0);
    assert_eq!(&out[24..28], &[0x12, 0x34, 0, 1]);
    assert!(ones_complement_ok(&out[..20]));
    assert!(ones_complement_ok(&out[20..]));
}

#[test]
fn icmp_not_to_gateway_or_not_echo_is_ignored() {
    let ip = echo_request([10, 0, 0, 2], [10, 0, 0, 3]);
    assert!(gateway_icmp_reply(&frame(IP_TURN, IPV4, 1, &ip), GATEWAY).is_none());
    let mut ip = echo_request([10, 0, 0, 2], [10, 0, 0, 1]);
    ip[20] = 0;
    assert!(gateway_icmp_reply(&frame(IP_TURN, IPV4, 1, &ip), GATEWAY).is_none());
    assert!(gateway_icmp_reply(&frame(IP_TURN, IPV4, 1, &[0x45, 0]), GATEWAY).is_none());
}

#[test]
fn internet_checksum_known_value() {
    let b = vec![0x45, 0x00, 0x00, 0x73, 0x00, 0x00, 0x40, 0x00, 0x40, 0x11, 0x00, 0x00, 0xc0, 0xa8,
        0x00, 0x01, 0xc0, 0xa8, 0x00, 0xc7];
    assert_eq!(checksum(&b, 0, b.len()), 0xb861);
    assert_eq!(checksum(&vec![], 0, 0), 0xffff);
    assert_eq!(checksum(&vec![0xff, 0xff], 0, 2), 0);
}

#[test]
fn route_refuses_encrypted_without_session() {
    let mut h = handler();
    let a = v4(203, 0, 113, 5, 4000);
    let enc = frame(CONTROL, PING, 1 | ENCRYPTED_BIT, &[0, 0, 0, 0]);
    assert!(matches!(h.route(&enc, a), Err(Error::NoKey)));
    let hs = frame(SERVICE, HANDSHAKE_REQUEST, 1 | ENCRYPTED_BIT, &[]);
    assert_eq!(h.route(&hs, a).unwrap().route, Route::Handshake);
    let reg = frame(SERVICE, REGISTRATION_REQUEST, 1 | ENCRYPTED_BIT, &[]);
    assert!(matches!(h.route(&reg, a), Err(Error::NoKey)));
    h.install_cipher_session(a, vec![7; 32], "T".to_string(), 0).unwrap();
    let d = h.route(&reg, a).unwrap();
    assert!(d.decrypt);
    assert_eq!(d.route, Route::Registration);
    let addr = frame(CONTROL, ADDR_REQUEST, 1, &[]);
    assert_eq!(h.route(&addr, a).unwrap().route, Route::AddrRequest);
}

#[test]
fn route_needs_context_for_session_requests() {
    let mut h = handler();
    let a = v4(203, 0, 113, 5, 4000);
    let poll = frame(SERVICE, POLL_DEVICE_LIST, 1, &[]);
    assert!(matches!(h.route(&poll, a), Err(Error::Disconnect)));
    h.register(&request("A", false), a, None, 0).unwrap();
    let ctx = h.get_context(a).unwrap();
    assert_eq!(h.route(&poll, a).unwrap().route, Route::PollDeviceList(ctx));
    let unknown = frame(SERVICE, 99, 1, &[]);
    assert!(matches!(h.route(&unknown, a), Err(Error::Other(_))));
}

#[test]
fn broadcast_respects_exclude_and_cohorts() {
    let mut h = handler();
    h.register(&request("A", false), v4(1, 1, 1, 1, 1), None, 0).unwrap();
    h.register(&request("B", true), v4(2, 2, 2, 2, 2), None, 0).unwrap();
    h.register(&request("C", false), v4(3, 3, 3, 3, 3), None, 0).unwrap();
    h.register(&request("D", false), v4(4, 4, 4, 4, 4), None, 0).unwrap();
    let net = &h.groups[0].network;
    assert_eq!(broadcast_targets(net, &vec![0x0A00_0004], false), vec![0, 3]);
    assert_eq!(broadcast_targets(net, &vec![], true), vec![1]);
}

#[test]
fn broadcast_payload_parsing() {
    let (ex, data) = parse_broadcast(&[2, 10, 0, 0, 2, 10, 0, 0, 3, 7, 7]).unwrap();
    assert_eq!(ex, vec![0x0A00_0002, 0x0A00_0003]);
    assert_eq!(data, vec![7, 7]);
    assert!(matches!(parse_broadcast(&[2, 10, 0, 0, 2]), Err(FrameError::TooShort)));
    assert!(matches!(parse_broadcast(&[]), Err(FrameError::TooShort)));
    let b = frame(IP_TURN, IPV4_BROADCAST, 1, &[0, 1]);
    assert_eq!(b.payload(), vec![0, 1]);
}

#[test]
fn client_status_is_stamped_on_reported_source() {
    let mut h = handler();
    let a = v4(203, 0, 113, 5, 4000);
    h.register(&request("A", false), a, None, 0).unwrap();
    h.register(&request("B", false), v4(198, 51, 100, 7, 5000), None, 0).unwrap();
    let ctx = h.get_context(a).unwrap();
    let report = ClientStatusReport {
        source: 0x0A00_0003,
        p2p_list: vec![0x0A00_0002],
        up_stream: 10,
        down_stream: 20,
        is_cone: true,
    };
    h.up_client_status_info(ctx, report, 1234);
    let net = &h.groups[0].network;
    assert!(net.clients[0].client_status.is_none());
    let s = net.clients[1].client_status.as_ref().unwrap();
    assert_eq!(s.update_time, 1234);
    assert_eq!(s.p2p_list, vec![0x0A00_0002]);
    assert!(s.is_cone);
    let missing = ClientStatusReport { source: 0x0A00_0009, p2p_list: vec![], up_stream: 0, down_stream: 0, is_cone: false };
    h.up_client_status_info(ctx, missing, 5);
    assert_eq!(h.groups[0].network.epoch, 2);
    let t = h.up_client_status_info_now(ctx, ClientStatusReport { source: 0x0A00_0002, p2p_list: vec![], up_stream: 1, down_stream: 1, is_cone: false });
    assert_eq!(h.groups[0].network.clients[0].client_status.as_ref().unwrap().update_time, t);
    assert!(t > 0);
}

#[test]
fn handle_serves_ping_and_addr_and_forwards_registration() {
    let mut h = handler();
    let a = v4(203, 0, 113, 5, 4000);
    let reg = frame(SERVICE, REGISTRATION_REQUEST, 1, &[]);
    match h.handle(&reg, a).unwrap() {
        Action::Forward(d) => assert_eq!(d.route, Route::Registration),
        _ => panic!("registration is forwarded"),
    }
    h.register(&request("A", false), a, None, 0).unwrap();
    match h.handle(&frame(CONTROL, PING, 1, &[0, 7, 0, 0]), a).unwrap() {
        Action::Reply(p) => assert_eq!(p.payload(), vec![0, 7, 0, 1]),
        _ => panic!("ping is answered"),
    }
    match h.handle(&frame(CONTROL, ADDR_REQUEST, 1, &[]), a).unwrap() {
        Action::Reply(p) => assert_eq!(p.payload(), vec![203, 0, 113, 5, 0x0F, 0xA0]),
        _ => panic!("address request is answered"),
    }
    let pure = PeerAddr { ip: IpAddress::V6(1), port: 1 };
    assert!(matches!(h.handle(&frame(CONTROL, ADDR_REQUEST, 1, &[]), pure), Ok(Action::Drop)));
    let enc = frame(CONTROL, PING, 1 | ENCRYPTED_BIT, &[0, 0, 0, 0]);
    assert!(matches!(h.handle(&enc, a), Err(Error::NoKey)));
    h.install_cipher_session(a, vec![7; 32], "T".to_string(), 0).unwrap();
    assert!(matches!(h.handle(&enc, a), Ok(Action::Forward(_))));
}

#[test]
fn handle_broadcasts_inner_frame() {
    let mut h = handler();
    let a = v4(1, 1, 1, 1, 1);
    h.register(&request("A", false), a, None, 0).unwrap();
    h.register(&request("B", false), v4(2, 2, 2, 2, 2), None, 0).unwrap();
    h.register(&request("C", false), v4(3, 3, 3, 3, 3), None, 0).unwrap();
    let inner = [1u8, IP_TURN, IPV4, 0, 10, 0, 0, 2, 10, 0, 0, 255, 42];
    let mut payload = vec![1, 10, 0, 0, 2];
    payload.extend_from_slice(&inner);
    match h.handle(&frame(IP_TURN, IPV4_BROADCAST, 1, &payload), a).unwrap() {
        Action::Broadcast { group, targets, frame } => {
            assert_eq!(group, 0);
            assert_eq!(targets, vec![1, 2]);
            assert_eq!(frame, inner.to_vec());
        }
        _ => panic!("broadcast expected"),
    }
    assert!(h.handle(&frame(IP_TURN, IPV4_BROADCAST, 1, &[3, 1]), a).is_err());
}

#[test]
fn handle_answers_gateway_ping() {
    let mut h = handler();
    let a = v4(1, 1, 1, 1, 1);
    h.register(&request("A", false), a, None, 0).unwrap();
    let ip = echo_request([10, 0, 0, 2], [10, 0, 0, 1]);
    match h.handle(&frame(IP_TURN, IPV4, 1, &ip), a).unwrap() {
        Action::Reply(p) => {
            assert!(p.is_gateway());
            assert_eq!(p.payload()[20], 0);
        }
        _ => panic!("echo reply expected"),
    }
    let other = echo_request([10, 0, 0, 2], [10, 0, 0, 3]);
    assert!(matches!(h.handle(&frame(IP_TURN, IPV4, 1, &other), a), Ok(Action::Drop)));
}

#[test]
fn secret_handshake_installs_session() {
    let mut h = handler();
    let a = v4(203, 0, 113, 5, 4000);
    let b = v4(198, 51, 100, 7, 5000);
    match h.install_cipher_session(a, vec![1; 31], "T".to_string(), 0) {
        Err(Error::Other(m)) => assert_eq!(m, "key err"),
        _ => panic!("short key is refused"),
    }
    assert!(h.cipher_sessions.is_empty());
    let p = h.install_cipher_session(a, vec![1; 32], "T".to_string(), 0).unwrap();
    assert_eq!(p.protocol(), SERVICE);
    assert_eq!(p.transport_protocol(), SECRET_HANDSHAKE_RESPONSE);
    assert!(p.payload().is_empty());
    h.install_cipher_session(b, vec![2; 32], "U".to_string(), 0).unwrap();
    h.install_cipher_session(a, vec![3; 32], "V".to_string(), 5).unwrap();
    assert_eq!(h.cipher_sessions.len(), 2);
    let s = h.cipher_sessions.iter().find(|s| s.addr == a).unwrap();
    assert_eq!(s.key, vec![3; 32]);
    assert_eq!(s.token, "V");
    let enc = frame(CONTROL, PING, 1 | ENCRYPTED_BIT, &[0, 0, 0, 0]);
    assert!(matches!(h.route(&enc, b), Err(Error::Disconnect)));
    assert!(matches!(h.route(&enc, v4(9, 9, 9, 9, 9)), Err(Error::NoKey)));
}

#[test]
fn handshake_reply_advertises_key_only_when_present() {
    let v = "1.2.3".to_string();
    let r = handshake_reply(&v, Some((vec![9, 8], "fp".to_string())));
    assert_eq!(r.version, "1.2.3");
    assert_eq!(r.public_key, vec![9, 8]);
    assert_eq!(r.key_finger, "fp");
    assert!(r.secret);
    let r = handshake_reply(&v, None);
    assert!(r.public_key.is_empty());
    assert!(r.key_finger.is_empty());
    assert!(!r.secret);
}

#[test]
fn expire_drops_stale_sessions() {
    let mut h = handler();
    let a = v4(1, 1, 1, 1, 1);
    let b = v4(2, 2, 2, 2, 2);
    h.register(&request("A", false), a, None, 100).unwrap();
    h.register(&request("B", false), b, None, 500).unwrap();
    h.install_cipher_session(a, vec![0; 32], "T".to_string(), 100).unwrap();
    h.expire(400, 200);
    assert!(h.get_context(a).is_none());
    assert!(h.get_context(b).is_some());
    assert_eq!(h.ip_sessions.len(), 1);
    assert!(h.cipher_sessions.is_empty());
    assert_eq!(h.groups[0].network.clients.len(), 2);
    assert!(!h.groups[0].network.clients[0].online);
    assert!(h.groups[0].network.clients[1].online);
    assert_eq!(h.groups[0].network.epoch, 2);
    h.expire(700, 200);
    assert!(h.get_context(b).is_some());
    h.expire(701, 200);
    assert!(h.addr_sessions.is_empty());
    assert!(!h.groups[0].network.clients[1].online);
}
