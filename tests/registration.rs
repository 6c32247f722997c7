use vnts_core::allocator::{allocate, check_reg, Error, RegistrationRequest};
use vnts_core::entity::{IpAddress, NetworkInfo, PeerAddr};
use vnts_core::server::{ConfigInfo, ServerPacketHandler};

const GATEWAY: u32 = 0x0A00_0001;
const MASK: u32 = 0xFFFF_FF00;
const BROADCAST: u32 = 0x0A00_00FF;

fn handler() -> ServerPacketHandler {
    ServerPacketHandler::new(ConfigInfo {
        gateway: GATEWAY,
        netmask: MASK,
        broadcast: BROADCAST,
        white_token: None,
    })
}

fn request(device_id: &str, token: &str, virtual_ip: u32, allow_ip_change: bool) -> RegistrationRequest {
    RegistrationRequest {
        token: token.to_string(),
        device_id: device_id.to_string(),
        name: device_id.to_string(),
        version: "1.0".to_string(),
        virtual_ip,
        client_secret: false,
        allow_ip_change,
        is_fast: false,
    }
}

fn v4(a: u8, b: u8, c: u8, d: u8, port: u16) -> PeerAddr {
    PeerAddr { ip: IpAddress::V4(u32::from_be_bytes([a, b, c, d])), port }
}

fn epoch_of(h: &ServerPacketHandler, token: &str) -> u64 {
    let g = h.find_group(&token.to_string()).unwrap();
    h.groups[g].network.epoch
}

#[test]
fn scenario_first_client_registers() {
    let mut h = handler();
    let r = h.register(&request("A", "T", 0, false), v4(203, 0, 113, 5, 4000), None, 0).unwrap();
    assert_eq!(r.virtual_ip, 0x0A00_0002);
    assert_eq!(r.virtual_gateway, GATEWAY);
    assert_eq!(r.virtual_netmask, MASK);
    assert_eq!(r.public_ip, u32::from_be_bytes([203, 0, 113, 5]));
    assert_eq!(r.public_port, 4000);
    assert_eq!(r.public_ipv6, None);
    assert_eq!(r.epoch, 1);
    assert!(r.device_info_list.is_empty());
}

#[test]
fn scenario_second_client_sees_first() {
    let mut h = handler();
    h.register(&request("A", "T", 0, false), v4(203, 0, 113, 5, 4000), None, 0).unwrap();
    let r = h.register(&request("B", "T", 0, false), v4(198, 51, 100, 7, 5000), None, 0).unwrap();
    assert_eq!(r.virtual_ip, 0x0A00_0003);
    assert_eq!(r.epoch, 2);
    assert_eq!(r.device_info_list.len(), 1);
    assert_eq!(r.device_info_list[0].virtual_ip, 0x0A00_0002);
    assert_eq!(r.device_info_list[0].name, "A");
    assert_eq!(r.device_info_list[0].device_status, 0);
}

#[test]
fn scenario_poll_device_list_excludes_self() {
    let mut h = handler();
    h.register(&request("A", "T", 0, false), v4(203, 0, 113, 5, 4000), None, 0).unwrap();
    let b = v4(198, 51, 100, 7, 5000);
    h.register(&request("B", "T", 0, false), b, None, 0).unwrap();
    let ctx = h.get_context(b).unwrap();
    let (epoch, list) = h.poll_device_list(ctx);
    assert_eq!(epoch, 2);
    assert_eq!(list.len(), 1);
    assert_eq!(list[0].virtual_ip, 0x0A00_0002);
}

#[test]
fn scenario_requested_ip_held_by_other_device() {
    let mut h = handler();
    h.register(&request("A", "T", 0, false), v4(203, 0, 113, 5, 4000), None, 0).unwrap();
    h.register(&request("B", "T", 0, false), v4(198, 51, 100, 7, 5000), None, 0).unwrap();
    let c = v4(192, 0, 2, 9, 6000);
    let r = h.register(&request("C", "T", 0x0A00_0002, false), c, None, 0);
    assert!(matches!(r, Err(Error::IpAlreadyExists)));
    assert_eq!(epoch_of(&h, "T"), 2);
    assert!(h.get_context(c).is_none());
    let r = h.register(&request("C", "T", 0x0A00_0002, true), c, None, 0).unwrap();
    assert_eq!(r.virtual_ip, 0x0A00_0004);
    assert_eq!(r.epoch, 3);
}

#[test]
fn reregistration_keeps_address_and_bumps_epoch_once() {
    let mut h = handler();
    let a = v4(203, 0, 113, 5, 4000);
    let first = h.register(&request("A", "T", 0, false), a, None, 0).unwrap();
    h.register(&request("B", "T", 0, false), v4(198, 51, 100, 7, 5000), None, 0).unwrap();
    let again = h.register(&request("A", "T", 0, false), v4(203, 0, 113, 5, 4001), None, 0).unwrap();
    assert_eq!(again.virtual_ip, first.virtual_ip);
    assert_eq!(again.epoch, 3);
}

#[test]
fn reregistration_with_free_requested_address_moves() {
    let mut h = handler();
    let a = v4(203, 0, 113, 5, 4000);
    let first = h.register(&request("A", "T", 0, false), a, None, 0).unwrap();
    assert_eq!(first.virtual_ip, 0x0A00_0002);
    let moved = h.register(&request("A", "T", 0x0A00_0010, false), a, None, 0).unwrap();
    assert_eq!(moved.virtual_ip, 0x0A00_0010);
    assert_eq!(moved.epoch, 2);
    let ctx = h.get_context(a).unwrap();
    assert_eq!(ctx.virtual_ip, 0x0A00_0010);
}

#[test]
fn requesting_own_address_keeps_it() {
    let mut h = handler();
    let a = v4(203, 0, 113, 5, 4000);
    h.register(&request("A", "T", 0, false), a, None, 0).unwrap();
    let r = h.register(&request("A", "T", 0x0A00_0002, false), a, None, 0).unwrap();
    assert_eq!(r.virtual_ip, 0x0A00_0002);
}

#[test]
fn gateway_and_broadcast_are_invalid() {
    let mut h = handler();
    let a = v4(203, 0, 113, 5, 4000);
    assert!(matches!(h.register(&request("A", "T", GATEWAY, false), a, None, 0), Err(Error::InvalidIp)));
    assert!(matches!(h.register(&request("A", "T", BROADCAST, false), a, None, 0), Err(Error::InvalidIp)));
    assert!(matches!(
        h.register(&request("A", "T", 0x0B00_0005, false), a, None, 0),
        Err(Error::InvalidIp)
    ));
    assert!(h.groups.is_empty());
    assert!(h.get_context(a).is_none());
}

#[test]
fn full_group_is_exhausted() {
    let mut net = NetworkInfo::new(GATEWAY & MASK, MASK, GATEWAY);
    let a = v4(203, 0, 113, 5, 4000);
    for i in 0..253u32 {
        let v = allocate(&mut net, BROADCAST, &request(&format!("d{}", i), "T", 0, false), a, None).unwrap();
        assert_eq!(v, 0x0A00_0002 + i);
    }
    let r = allocate(&mut net, BROADCAST, &request("last", "T", 0, false), a, None);
    assert!(matches!(r, Err(Error::AddressExhausted)));
    assert_eq!(net.epoch, 253);
    assert_eq!(net.clients.len(), 253);
}

#[test]
fn length_checks() {
    let ok = "x".repeat(128);
    let long = "x".repeat(129);
    let mut r = request("A", "T", 0, false);
    assert!(check_reg(&r).is_ok());
    r.token = ok.clone();
    r.device_id = ok.clone();
    r.name = ok.clone();
    assert!(check_reg(&r).is_ok());
    r.token = String::new();
    assert_eq!(check_reg(&r), Err(Error::Other("group length error".to_string())));
    r.token = long.clone();
    assert_eq!(check_reg(&r), Err(Error::Other("group length error".to_string())));
    r.token = "T".to_string();
    r.device_id = String::new();
    assert_eq!(check_reg(&r), Err(Error::Other("device_id length error".to_string())));
    r.device_id = long.clone();
    assert_eq!(check_reg(&r), Err(Error::Other("device_id length error".to_string())));
    r.device_id = "A".to_string();
    r.name = String::new();
    assert_eq!(check_reg(&r), Err(Error::Other("name length error".to_string())));
    r.name = long;
    assert_eq!(check_reg(&r), Err(Error::Other("name length error".to_string())));
}

#[test]
fn length_counts_bytes_not_chars() {
    let mut r = request("A", "T", 0, false);
    r.name = "é".repeat(65);
    assert_eq!(check_reg(&r), Err(Error::Other("name length error".to_string())));
    r.name = "é".repeat(64);
    assert!(check_reg(&r).is_ok());
}

#[test]
fn token_allowlist() {
    let mut h = ServerPacketHandler::new(ConfigInfo {
        gateway: GATEWAY,
        netmask: MASK,
        broadcast: BROADCAST,
        white_token: Some(vec!["good".to_string()]),
    });
    let a = v4(203, 0, 113, 5, 4000);
    assert!(matches!(h.register(&request("A", "bad", 0, false), a, None, 0), Err(Error::TokenError)));
    assert!(h.register(&request("A", "good", 0, false), a, None, 0).is_ok());
}

#[test]
fn groups_are_isolated() {
    let mut h = handler();
    let r1 = h.register(&request("A", "T1", 0, false), v4(203, 0, 113, 5, 4000), None, 0).unwrap();
    let r2 = h.register(&request("B", "T2", 0, false), v4(198, 51, 100, 7, 5000), None, 0).unwrap();
    assert_eq!(r1.virtual_ip, 0x0A00_0002);
    assert_eq!(r2.virtual_ip, 0x0A00_0002);
    assert_eq!(r2.epoch, 1);
    assert!(r2.device_info_list.is_empty());
}

#[test]
fn ipv6_reflection() {
    let mut h = handler();
    let mapped = PeerAddr { ip: IpAddress::V6(0xffff_cb00_7105), port: 7 };
    let r = h.register(&request("A", "T", 0, false), mapped, None, 0).unwrap();
    assert_eq!(r.public_ip, 0xcb00_7105);
    assert_eq!(r.public_ipv6, None);
    let pure = PeerAddr { ip: IpAddress::V6(0x2001_0db8 << 96 | 1), port: 8 };
    let r = h.register(&request("B", "T", 0, false), pure, None, 0).unwrap();
    assert_eq!(r.public_ip, 0);
    assert_eq!(r.public_ipv6, Some(0x2001_0db8 << 96 | 1));
}

#[test]
fn registration_binds_sessions() {
    let mut h = handler();
    let a = v4(203, 0, 113, 5, 4000);
    assert!(h.get_context(a).is_none());
    let r = h.register(&request("A", "T", 0, false), a, None, 0).unwrap();
    let ctx = h.get_context(a).unwrap();
    assert_eq!(ctx.virtual_ip, r.virtual_ip);
    assert_eq!(h.groups[ctx.group].token, "T");
    assert_eq!(h.ip_sessions.len(), 1);
    assert_eq!(h.ip_sessions[0].addr, a);
}

#[test]
fn directory_keys_stay_unique_and_in_range() {
    let mut h = handler();
    let addrs = [v4(1, 1, 1, 1, 1), v4(2, 2, 2, 2, 2), v4(3, 3, 3, 3, 3)];
    h.register(&request("A", "T", 0, false), addrs[0], None, 0).unwrap();
    h.register(&request("B", "T", 0x0A00_0002, true), addrs[1], None, 0).unwrap();
    h.register(&request("C", "T", 0x0A00_0007, false), addrs[2], None, 0).unwrap();
    h.register(&request("A", "T", 0, false), addrs[0], None, 0).unwrap();
    assert!(matches!(h.register(&request("D", "T", 0x0A00_0007, false), addrs[2], None, 0), Err(Error::IpAlreadyExists)));
    let net = &h.groups[0].network;
    let mut seen: Vec<u32> = Vec::new();
    for c in &net.clients {
        assert!(c.virtual_ip > 0x0A00_0000 && c.virtual_ip < 0x0A00_00FF);
        assert_ne!(c.virtual_ip, GATEWAY);
        assert!(!seen.contains(&c.virtual_ip));
        seen.push(c.virtual_ip);
    }
    assert_eq!(seen, vec![0x0A00_0002, 0x0A00_0003, 0x0A00_0007]);
    assert_eq!(net.epoch, 4);
}

#[test]
fn epoch_overflow_is_refused() {
    let mut h = handler();
    let a = v4(1, 1, 1, 1, 1);
    h.register(&request("A", "T", 0, false), a, None, 0).unwrap();
    h.groups[0].network.epoch = u64::MAX;
    match h.register(&request("B", "T", 0, false), v4(2, 2, 2, 2, 2), None, 0) {
        Err(Error::Other(m)) => assert_eq!(m, "epoch overflow"),
        _ => panic!("overflow expected"),
    }
    assert_eq!(h.groups[0].network.clients.len(), 1);
}
