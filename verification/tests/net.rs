use universal_scanner::arp::frame;
use universal_scanner::iface::{is_autoconf, is_private, mask_from_prefix, subnet_hosts};
use universal_scanner::ip::IpAddr;
use universal_scanner::netscan::plan_hosts;
use universal_scanner::pcap::{appended, global_header, udp_record};
use universal_scanner::plan::{dests_of, listen_of, per_interface, Dest, Listen, Probes};
use universal_scanner::protocols::dispatch::parse_datagram;
use universal_scanner::protocols::engines::Engine;
use universal_scanner::protocols::tvt;
use universal_scanner::protocols::arp::{arp_parse, filter_local, sweep_plan, Arp};

fn v4(a: u8, b: u8, c: u8, d: u8) -> IpAddr {
    IpAddr::V4(a, b, c, d)
}

fn u(a: u8, b: u8, c: u8, d: u8) -> u32 {
    u32::from_be_bytes([a, b, c, d])
}

fn v6(s0: u16, s1: u16) -> IpAddr {
    IpAddr::V6(s0, s1, 0, 0, 0, 0, 0, 1)
}

// ---------------------------------------------------------------- iface

#[test]
fn is_private_covers_private_ranges() {
    assert!(is_private(v4(10, 1, 2, 3)));
    assert!(is_private(v4(172, 16, 0, 1)));
    assert!(is_private(v4(172, 31, 255, 254)));
    assert!(!is_private(v4(172, 32, 0, 1)));
    assert!(is_private(v4(192, 168, 1, 1)));
    assert!(is_private(v4(169, 254, 10, 10)));
    assert!(!is_private(v4(8, 8, 8, 8)));
    assert!(!is_private(v4(11, 0, 0, 1)));
    assert!(is_private(v6(0xfd12, 0)));
    assert!(is_private(v6(0xfe80, 0)));
    assert!(is_private(v6(0xfebf, 0)));
    assert!(!is_private(v6(0xfec0, 0)));
    assert!(!is_private(v6(0x2001, 0xdb8)));
}

#[test]
fn is_autoconf_cases() {
    assert!(is_autoconf(v4(169, 254, 1, 1)));
    assert!(!is_autoconf(v4(192, 168, 1, 1)));
    assert!(is_autoconf(v6(0xfe80, 0)));
    assert!(!is_autoconf(v6(0xfd00, 0)));
}

#[test]
fn mask_from_prefix_cases() {
    assert_eq!(mask_from_prefix(24), u(255, 255, 255, 0));
    assert_eq!(mask_from_prefix(12), u(255, 240, 0, 0));
    assert_eq!(mask_from_prefix(32), u(255, 255, 255, 255));
    assert_eq!(mask_from_prefix(0), 0);
}

#[test]
fn subnet_hosts_24() {
    let hosts = subnet_hosts(u(192, 168, 1, 5), u(255, 255, 255, 0), 254);
    assert_eq!(hosts.len(), 254);
    assert_eq!(hosts[0], u(192, 168, 1, 1));
    assert_eq!(hosts[253], u(192, 168, 1, 254));
}

#[test]
fn subnet_hosts_30() {
    let hosts = subnet_hosts(u(10, 0, 0, 1), u(255, 255, 255, 252), 254);
    assert_eq!(hosts, vec![u(10, 0, 0, 1), u(10, 0, 0, 2)]);
}

#[test]
fn subnet_hosts_capped_at_max() {
    let hosts = subnet_hosts(u(10, 0, 0, 1), u(255, 255, 0, 0), 254);
    assert_eq!(hosts.len(), 254);
    assert_eq!(hosts[0], u(10, 0, 0, 1));
}

#[test]
fn subnet_hosts_degenerate_empty() {
    assert!(subnet_hosts(u(10, 0, 0, 0), u(255, 255, 255, 254), 254).is_empty());
    assert!(subnet_hosts(u(10, 0, 0, 1), u(255, 255, 255, 255), 254).is_empty());
}

#[test]
fn plan_hosts_skips_self_and_respects_cap() {
    let h = plan_hosts(u(192, 168, 1, 5), u(255, 255, 255, 0));
    assert_eq!(h.len(), 253);
    assert!(!h.contains(&u(192, 168, 1, 5)));
    let h8 = plan_hosts(u(10, 0, 0, 1), u(255, 0, 0, 0));
    assert_eq!(h8.len(), 253);
    assert!(plan_hosts(u(192, 168, 1, 5), u(255, 255, 255, 255)).is_empty());
    assert!(plan_hosts(u(192, 168, 1, 0), u(255, 255, 255, 254)).is_empty());
}

#[test]
fn sweep_plan_skips_self_and_caps_254() {
    let h = sweep_plan(u(10, 1, 0, 9), u(255, 255, 0, 0));
    assert_eq!(h.len(), 253);
    assert_eq!(h[0], u(10, 1, 0, 1));
    assert!(!h.contains(&u(10, 1, 0, 9)));
}

// ---------------------------------------------------------------- pcap

#[test]
fn global_header_layout() {
    let b = global_header();
    assert_eq!(b.len(), 24);
    assert_eq!(&b[0..4], &[0xd4, 0xc3, 0xb2, 0xa1]);
    assert_eq!(&b[4..6], &[0x02, 0x00]);
    assert_eq!(&b[6..8], &[0x04, 0x00]);
    assert_eq!(&b[16..20], &[0xdc, 0x05, 0, 0]);
    assert_eq!(&b[20..24], &[1, 0, 0, 0]);
}

#[test]
fn record_layout() {
    let b = udp_record(1_700_000_000, 0, v4(127, 0, 0, 1), 1024, v4(192, 168, 1, 9), 1900, b"hello").unwrap();
    let frame = 14u32 + 20 + 8 + 5;
    assert_eq!(b.len(), 16 + frame as usize);
    assert_eq!(&b[0..4], &1_700_000_000u32.to_le_bytes());
    assert_eq!(&b[4..8], &0u32.to_le_bytes());
    assert_eq!(&b[8..12], &frame.to_le_bytes());
    assert_eq!(&b[12..16], &frame.to_le_bytes());
    assert_eq!(&b[16..22], &[0x02, 0, 0, 168, 1, 9]);
    assert_eq!(&b[22..28], &[0x02, 0, 0, 0, 0, 1]);
    assert_eq!(&b[28..30], &[0x08, 0x00]);
    assert_eq!(b[30], 0x45);
    assert_eq!(&b[32..34], &33u16.to_be_bytes());
    assert_eq!(b[38], 254);
    assert_eq!(b[39], 17);
    assert_eq!(&b[42..46], &[127, 0, 0, 1]);
    assert_eq!(&b[46..50], &[192, 168, 1, 9]);
    assert_eq!(&b[50..52], &1024u16.to_be_bytes());
    assert_eq!(&b[52..54], &1900u16.to_be_bytes());
    assert_eq!(&b[54..56], &13u16.to_be_bytes());
    assert_eq!(&b[58..63], b"hello");
}

#[test]
fn ipv6_skipped() {
    let r = udp_record(0, 0, IpAddr::V6(0, 0, 0, 0, 0, 0, 0, 1), 1, IpAddr::V6(0, 0, 0, 0, 0, 0, 0, 1), 2, b"x");
    assert!(r.is_none());
}

// ---------------------------------------------------------------- arp frames

#[test]
fn request_roundtrip() {
    let f = frame::build_request([0xAA; 6], [192, 168, 1, 2], [192, 168, 1, 99]);
    assert_eq!(f.len(), 42);
    let p = frame::parse(&f).unwrap();
    assert_eq!(p.op, frame::ARP_OP_REQUEST);
    assert_eq!(p.src_mac, [0xAA; 6]);
    assert_eq!(p.sender_ip, [192, 168, 1, 2]);
    assert_eq!(p.target_ip, [192, 168, 1, 99]);
    assert_eq!(p.target_mac, [0u8; 6]);
}

#[test]
fn garp_detection() {
    let f = frame::build_request([0xBB; 6], [10, 0, 0, 7], [10, 0, 0, 7]);
    assert!(frame::is_garp(&frame::parse(&f).unwrap()));
}

#[test]
fn reply_frame() {
    let f = frame::build_reply([0xCC; 6], [10, 0, 0, 8], [0xDD; 6], [10, 0, 0, 1]);
    let p = frame::parse(&f).unwrap();
    assert_eq!(p.op, frame::ARP_OP_REPLY);
    assert!(!frame::is_garp(&p));
}

#[test]
fn rejects_non_arp_ethertype() {
    let mut f = frame::build_request([0xAA; 6], [1, 2, 3, 4], [1, 2, 3, 5]);
    f[12] = 0x08;
    f[13] = 0x00;
    assert!(frame::parse(&f).is_none());
}

#[test]
fn rejects_short_frame() {
    assert!(frame::parse(&[0u8; 41]).is_none());
}

fn garp_fixture() -> [u8; 42] {
    frame::build_request([0x00, 0x11, 0x22, 0x33, 0x44, 0x55], [192, 168, 1, 50], [192, 168, 1, 50])
}

#[test]
fn arp_parse_garp_fixture() {
    let devs = arp_parse(&garp_fixture());
    assert_eq!(devs.len(), 1);
    let d = &devs[0];
    assert_eq!(d.protocol, "ARP");
    assert_eq!(d.version, 0);
    assert_eq!(d.ip.to_text(), "192.168.1.50");
    assert_eq!(d.device_type, "GARP");
    assert_eq!(d.serial, "00:11:22:33:44:55");
}

#[test]
fn arp_parse_reply_type() {
    let f = frame::build_reply([0xCC; 6], [10, 0, 0, 8], [0xDD; 6], [10, 0, 0, 1]);
    let devs = arp_parse(&f);
    assert_eq!(devs.len(), 1);
    assert_eq!(devs[0].device_type, "ARP");
    assert_eq!(devs[0].ip.to_text(), "10.0.0.8");
}

#[test]
fn arp_parse_non_arp_empty() {
    let mut f = frame::build_request([0xAA; 6], [1, 2, 3, 4], [1, 2, 3, 5]);
    f[12] = 0x08;
    f[13] = 0x00;
    assert!(arp_parse(&f).is_empty());
}

#[test]
fn local_sender_filtered() {
    let devs = arp_parse(&garp_fixture());
    let kept = filter_local(devs, &[[192, 168, 1, 50]]);
    assert!(kept.is_empty());
    let devs = arp_parse(&garp_fixture());
    let kept = filter_local(devs, &[[192, 168, 1, 1]]);
    assert_eq!(kept.len(), 1);
}

// ---------------------------------------------------------------- degenerate masks and record count

#[test]
fn subnet_hosts_degenerate_masks_empty() {
    assert!(subnet_hosts(u(0, 0, 0, 0), u(255, 255, 255, 255), 254).is_empty());
    assert!(subnet_hosts(u(255, 255, 255, 255), u(255, 255, 255, 255), 254).is_empty());
    assert!(subnet_hosts(u(10, 0, 0, 4), u(255, 255, 255, 254), 254).is_empty());
    let all = subnet_hosts(u(1, 2, 3, 4), 0, 3);
    assert_eq!(all, vec![1, 2, 3]);
}

#[test]
fn record_count_advances_on_write_only() {
    assert_eq!(appended(0, true), Some(1));
    assert_eq!(appended(41, true), Some(42));
    assert_eq!(appended(7, false), None);
}

// ---------------------------------------------------------------- ARP and TVT plans

#[test]
fn arp_engine_plan_and_parse() {
    assert_eq!(listen_of(Engine::Arp), Listen::Nothing);
    assert!(!per_interface(Engine::Arp));
    assert!(dests_of(Engine::Arp).is_empty());
    let mut probes = Probes::new();
    assert!(probes.next(Engine::Arp, false, None).is_none());
    let f = frame::build_request([0xBB; 6], [10, 0, 0, 7], [10, 0, 0, 7]);
    let devs = parse_datagram(Engine::Arp, v4(240, 0, 30, 0), &f).unwrap();
    let direct = arp_parse(&f);
    assert_eq!(devs.len(), 1);
    assert_eq!(direct.len(), 1);
    assert_eq!(devs[0].device_type, "GARP");
    assert_eq!(devs[0].serial, direct[0].serial);
    assert_eq!(devs[0].ip, v4(10, 0, 0, 7));
}

#[test]
fn tvt_engine_plan() {
    assert_eq!(listen_of(Engine::Tvt), Listen::TwoGroups(234, 55, 55, 55, 234, 55, 55, 56, 23456));
    assert!(per_interface(Engine::Tvt));
    assert_eq!(dests_of(Engine::Tvt), vec![Dest::Multicast(234, 55, 55, 55, 23456)]);
    let mut probes = Probes::new();
    let p = probes.next(Engine::Tvt, false, None).unwrap();
    assert_eq!(p, tvt::build_probe().to_vec());
    assert_eq!(&p[0..4], b"MHED");
}

#[test]
fn arp_engine_struct() {
    let e = Arp;
    assert_eq!(e.name(), "ARP");
    assert_eq!(e.color(), 0x0000FF);
    assert!(e.used_ports().is_empty());
    let f = frame::build_reply([0xCC; 6], [10, 0, 0, 8], [0xDD; 6], [10, 0, 0, 1]);
    let devs = e.parse(&f);
    assert_eq!(devs.len(), 1);
    assert_eq!(devs[0].device_type, "ARP");
    assert_eq!(devs[0].serial, "cc:cc:cc:cc:cc:cc");
}

#[test]
fn wsd_probe_needs_random_bytes() {
    let mut probes = Probes::new();
    assert!(probes.next(Engine::Wsd, false, None).is_none());
    assert!(probes.next(Engine::Wsd, true, None).is_some());
    let p = probes.next(Engine::Wsd, false, Some([0; 16])).unwrap();
    assert!(String::from_utf8(p).unwrap().contains("urn:uuid:00000000-0000-4000-8000-000000000000"));
}
