use universal_scanner::config::Config;
use universal_scanner::devices::{normalize_mac, Device, DeviceTable};
use universal_scanner::ip::IpAddr;
use universal_scanner::log::{Level, Logger};
use universal_scanner::mdns::{encode_name, idn_ascii, idn_ascii_checked, punycode};
use universal_scanner::oui::{lookup, parse_oui_file, with_vendor};
use universal_scanner::ports::{parse_proc_net_udp, PortProvider, SplitMix64};

fn ip(s: &str) -> IpAddr {
    IpAddr::parse(s).unwrap()
}

fn dev(protocol: &str, version: u32, addr: &str, ty: &str, serial: &str) -> Device {
    Device::new(protocol.to_string(), version, ip(addr), String::new(), ty.to_string(), serial.to_string())
}

fn dev_with_mac(mac: &str) -> Device {
    let mut d = dev("X", 1, "10.0.0.5", "t", "s");
    d.mac = mac.to_string();
    d
}

fn same(a: &Device, b: &Device) -> bool {
    a.protocol == b.protocol
        && a.version == b.version
        && a.ip == b.ip
        && a.mac == b.mac
        && a.device_type == b.device_type
        && a.serial == b.serial
}

// ---------------------------------------------------------------- config

#[test]
fn defaults_match_csharp() {
    let c = Config::default();
    assert!(c.enable_ipv4);
    assert!(!c.enable_ipv6);
    assert!(c.force_link_local);
    assert!(!c.force_zeroconf);
    assert!(!c.force_generic_protocols);
    assert!(!c.debug_mode);
    assert!(c.port_sharing);
    assert!(!c.onvif_verbatim);
    assert!(!c.dahua_net_scan);
    assert!(c.arp_enabled);
}

// ---------------------------------------------------------------- devices

#[test]
fn new_device_emitted() {
    let mut t = DeviceTable::new(false);
    let d = dev("SSDP", 0, "10.0.0.5", "t", "s");
    let out = t.add(d.duplicate(), true, false).unwrap();
    assert!(same(&out, &d));
}

#[test]
fn same_version_dropped() {
    let mut t = DeviceTable::new(false);
    t.add(dev("ARP", 0, "10.0.0.5", "ARP", "aa:bb:cc:dd:ee:ff"), true, false);
    let d = dev("SSDP", 0, "10.0.0.5", "cam", "SN1");
    assert!(t.add(d, true, false).is_none());
}

#[test]
fn arp_v0_then_vendor_v1() {
    let mut t = DeviceTable::new(false);
    t.add(dev("ARP", 0, "10.0.0.5", "ARP", "aa:bb:cc:dd:ee:ff"), true, false);
    let d = dev("Dahua", 1, "10.0.0.5", "cam", "SN1");
    let out = t.add(d.duplicate(), true, false).unwrap();
    assert!(same(&out, &d));
    assert!(t.add(dev("ARP", 0, "10.0.0.5", "ARP", "aa:bb:cc:dd:ee:ff"), true, false).is_none());
}

#[test]
fn mac_retained_when_new_empty() {
    let mut t = DeviceTable::new(false);
    t.add(dev_with_mac("AA:BB:CC:DD:EE:FF"), true, false);
    let higher = dev("Y", 2, "10.0.0.5", "t", "s2");
    let updated = t.add(higher, true, false).unwrap();
    assert_eq!(updated.mac, "AA:BB:CC:DD:EE:FF");
}

#[test]
fn mac_replaced_when_new_nonempty() {
    let mut t = DeviceTable::new(false);
    t.add(dev("X", 1, "10.0.0.5", "t", "s"), true, false);
    let mut higher = dev_with_mac("11:22:33:44:55:66");
    higher.version = 2;
    let updated = t.add(higher, true, false).unwrap();
    assert_eq!(updated.mac, "11:22:33:44:55:66");
}

#[test]
fn normalize_mac_variants() {
    assert_eq!(normalize_mac("aa-bb-cc-dd-ee-ff"), "AA:BB:CC:DD:EE:FF");
    assert_eq!(normalize_mac("001122334455"), "00:11:22:33:44:55");
    assert_eq!(normalize_mac("00:11:22:33:44:55"), "00:11:22:33:44:55");
    assert_eq!(normalize_mac("AA-BB-CC-DD-EE-FF"), "AA:BB:CC:DD:EE:FF");
    assert_eq!(normalize_mac("123456789"), "123456789");
    assert_eq!(normalize_mac(""), "");
}

#[test]
fn lower_or_equal_version_dropped() {
    let mut t = DeviceTable::new(false);
    t.add(dev("Dahua", 2, "10.0.0.5", "cam", "SN1"), true, false);
    assert!(t.add(dev("SSDP", 0, "10.0.0.5", "t", "s"), true, false).is_none());
    assert!(t.add(dev("Dahua", 2, "10.0.0.5", "cam", "SN2"), true, false).is_none());
}

#[test]
fn generic_mode_splits_by_protocol() {
    let mut t = DeviceTable::new(true);
    assert!(t.add(dev("ARP", 0, "10.0.0.5", "ARP", "m"), true, false).is_some());
    assert!(t.add(dev("SSDP", 0, "10.0.0.5", "t", "s"), true, false).is_some());
}

#[test]
fn family_filter() {
    let mut t = DeviceTable::new(false);
    assert!(t.add(dev("X", 1, "fe80::1", "t", "s"), true, false).is_none());
    assert!(t.add(dev("X", 1, "10.0.0.9", "t", "s"), false, true).is_none());
    assert!(t.add(dev("X", 1, "fe80::1", "t", "s"), true, true).is_some());
}

#[test]
fn batch_order_is_discovery_order() {
    let mut t = DeviceTable::new(false);
    t.add(dev("A", 1, "10.0.0.2", "t", "s"), true, false);
    t.add(dev("B", 1, "10.0.0.1", "t", "s"), true, false);
    let ips: Vec<String> = t.all().iter().map(|d| d.ip.to_text()).collect();
    assert_eq!(ips, vec!["10.0.0.2".to_string(), "10.0.0.1".to_string()]);
}

#[test]
fn higher_version_replaces_row_in_place() {
    // The law: a strictly higher version updates the entry; the table keeps its length.
    let mut t = DeviceTable::new(false);
    t.add(dev("SSDP", 0, "10.0.0.5", "a", "1"), true, false);
    t.add(dev("X", 0, "10.0.0.6", "b", "2"), true, false);
    let out = t.add(dev("Dahua", 3, "10.0.0.5", "cam", "SN"), true, false).unwrap();
    assert_eq!(out.protocol, "Dahua");
    assert_eq!(t.len(), 2);
    assert_eq!(t.all()[0].device_type, "cam");
    assert_eq!(t.all()[1].device_type, "b");
    assert!(!t.is_empty());
}

// ---------------------------------------------------------------- log

#[test]
fn level_ordering() {
    assert!(Level::Fatal < Level::Error);
    assert!(Level::Error < Level::Warn);
    assert!(Level::Warn < Level::Info);
    assert!(Level::Info < Level::Debug);
}

#[test]
fn tags() {
    assert_eq!(Level::Fatal.tag(), "FATAL");
    assert_eq!(Level::Debug.tag(), "DEBUG");
}

#[test]
fn gating() {
    let mut l = Logger::new(Level::Warn);
    assert!(l.enabled(Level::Error));
    assert!(l.enabled(Level::Warn));
    assert!(l.enabled(Level::Fatal));
    assert!(!l.enabled(Level::Info));
    l.set_level(Level::Debug);
    assert!(l.enabled(Level::Debug));
}

#[test]
fn gated_line_is_none_and_task_ids_count_up() {
    let mut l = Logger::new(Level::Warn);
    assert!(l.info(3, "hidden").is_none());
    assert!(l.warn(3, "shown").is_some());
    assert_eq!(l.next_task_id(), 1);
    assert_eq!(l.next_task_id(), 2);
    assert_eq!(l.level(), Level::Warn);
}

// ---------------------------------------------------------------- mdns names

#[test]
fn encode_ascii_labels() {
    assert_eq!(
        encode_name("_axis-video._tcp.local"),
        vec![
            0x0b, b'_', b'a', b'x', b'i', b's', b'-', b'v', b'i', b'd', b'e', b'o', 0x04, b'_', b't', b'c', b'p',
            0x05, b'l', b'o', b'c', b'a', b'l', 0x00,
        ]
    );
}

#[test]
fn punycode_basic() {
    assert_eq!(punycode("müller"), "mller-kva");
    assert_eq!(punycode("bücher"), "bcher-kva");
    assert_eq!(punycode("hello"), "hello-");
}

#[test]
fn idn_label() {
    assert_eq!(idn_ascii("müller.local"), "xn--mller-kva.local");
    assert_eq!(idn_ascii("axis.local"), "axis.local");
}

#[test]
fn rfc3492_cjk_examples() {
    assert_eq!(punycode("他们为什么不说中文"), "ihqwcrb4cv8a8dqg056pqjye");
    assert_eq!(punycode("3年B組金八先生"), "3B-ww4c5e180e575a65lsy2b");
}

// ---------------------------------------------------------------- oui

#[test]
fn parses_base16_lines() {
    let text = "\n\
         847B57     (base 16)\tTP-Link Systems Inc.\n\
         3CEFA5     (base 16)\tHuawei Technologies Co.,Ltd\n\
         001122     (base 16)\tFake     Vendor  \n\
         junk line without marker\n\
         0011A2     (base 18)\tignored radix\n";
    let map = parse_oui_file(text).unwrap();
    assert_eq!(map.len(), 3);
    assert_eq!(lookup(&map, [0x84, 0x7b, 0x57, 1, 2, 3]).unwrap(), "TP-Link Systems Inc.");
    assert_eq!(lookup(&map, [0x3c, 0xef, 0xa5, 0, 0, 0]).unwrap(), "Huawei Technologies Co.,Ltd");
    assert_eq!(lookup(&map, [0x00, 0x11, 0x22, 9, 9, 9]).unwrap(), "Fake     Vendor");
    assert!(lookup(&map, [0x00, 0x11, 0xa2, 0, 0, 0]).is_none());
}

#[test]
fn empty_or_invalid_file_is_none() {
    assert!(parse_oui_file("").is_none());
    assert!(parse_oui_file("no markers here\n").is_none());
}

// ---------------------------------------------------------------- ports

#[test]
fn proc_net_udp_parse() {
    let text = "  sl  local_address rem_address st
   0: 00000000:1F90 00000000:0000 07
   1: 0100007F:0050 00000000:0000 0A
   2: 00000000:0000 00000000:0000 07";
    assert_eq!(parse_proc_net_udp(text), vec![0x1F90u16, 0x0050]);
}

#[test]
fn pick_within_range() {
    let mut rng = SplitMix64::new(42);
    for _ in 0..1000 {
        let p = rng.pick();
        assert!((1024..=65533).contains(&p));
    }
}

#[test]
fn splitmix_reference_value() {
    // SplitMix64 seeded with 0: the first output of the reference generator.
    let mut rng = SplitMix64::new(0);
    assert_eq!(rng.next_u64(), 0xE220A8397B1DCDAF);
    assert_eq!(rng.0, 0x9E3779B97F4A7C15);
}

#[test]
fn reserved_ports_never_returned() {
    let mut pp = PortProvider::with_used(&[5000u16, 1900]);
    for _ in 0..200 {
        if let Some(p) = pp.free_port(|_| true) {
            assert_ne!(p, 5000);
            assert_ne!(p, 1900);
        }
    }
}

#[test]
fn reserve_then_excluded() {
    let mut pp = PortProvider::with_used(&[]);
    pp.reserve(&[12345]);
    for _ in 0..200 {
        if let Some(p) = pp.free_port(|_| true) {
            assert_ne!(p, 12345);
        }
    }
}

#[test]
fn refused_binds_give_none() {
    let mut pp = PortProvider::with_used(&[]);
    assert!(pp.free_port(|_| false).is_none());
    let first = pp.free_port(|_| true).unwrap();
    assert!((1024..=65533).contains(&first));
}

#[test]
fn normalize_mac_twice_is_once() {
    for raw in ["aa-bb-cc-dd-ee-ff", "0011.2233.4455", "12345", "", "zz:aa:bb:cc:dd:ee:ff:11:22"] {
        let once = normalize_mac(raw);
        assert_eq!(normalize_mac(&once), once);
    }
}

#[test]
fn idn_lowercases_non_ascii_label() {
    assert_eq!(idn_ascii("MÜLLER.local"), "xn--mller-kva.local");
    assert_eq!(idn_ascii("MÜLLER.local"), idn_ascii("müller.local"));
    assert_eq!(idn_ascii_checked("Bücher.Example"), Some("xn--bcher-kva.example".to_string()));
}

#[test]
fn ascii_domain_only_lowercased() {
    assert_eq!(idn_ascii("AXIS-Video._TCP.Local"), "axis-video._tcp.local");
    assert_eq!(punycode("Cam1"), "Cam1-");
}

#[test]
fn vendor_added_to_serial() {
    assert_eq!(with_vendor("84:7b:57:01:02:03", "Intel Corporate"), "84:7b:57:01:02:03 (Intel Corporate)");
    let table = parse_oui_file("847B57     (base 16)\tIntel Corporate\n").unwrap();
    let v = lookup(&table, [0x84, 0x7b, 0x57, 1, 2, 3]).unwrap();
    assert_eq!(with_vendor("84:7b:57:01:02:03", &v), "84:7b:57:01:02:03 (Intel Corporate)");
}

#[test]
fn task_ids_run_one_to_n() {
    let mut l = Logger::new(Level::Info);
    let ids: Vec<u32> = (0..1000).map(|_| l.next_task_id()).collect();
    let expected: Vec<u32> = (1..=1000).collect();
    assert_eq!(ids, expected);
}

#[test]
fn free_ports_never_repeat() {
    let mut pp = PortProvider::with_used(&[]);
    let mut seen = std::collections::HashSet::new();
    for _ in 0..500 {
        if let Some(p) = pp.free_port(|_| true) {
            assert!(seen.insert(p), "port {p} handed out twice");
        }
    }
    assert!(!seen.is_empty());
}

#[test]
fn dns_name_two_bytes_longer() {
    for name in ["", "local", "_axis-video._tcp.local", "a..b", "x."] {
        assert_eq!(encode_name(name).len(), name.len() + 2, "{name}");
    }
}

#[test]
fn punycode_output_shape() {
    for (input, basic) in [("bücher", "bcher"), ("müller", "mller"), ("日本", ""), ("hello", "hello")] {
        let out = punycode(input);
        assert!(out.is_ascii());
        let head = if basic.is_empty() { String::new() } else { format!("{basic}-") };
        assert!(out.starts_with(&head), "{out}");
        assert!(out[head.len()..].chars().all(|c| c.is_ascii_lowercase() || c.is_ascii_digit()), "{out}");
    }
}

#[test]
fn warn_line_format_and_gate() {
    let l = Logger::new(Level::Warn);
    assert_eq!(l.warn(7, "disk low").unwrap(), "[   7] WARN: disk low");
    assert_eq!(l.warn(12345, "x").unwrap(), "[12345] WARN: x");
    let quiet = Logger::new(Level::Error);
    assert!(quiet.warn(7, "disk low").is_none());
}

#[test]
fn vendor_lookup_by_prefix_only() {
    let table = parse_oui_file("847B57     (base 16)\tIntel Corporate\n").unwrap();
    assert_eq!(lookup(&table, [0x84, 0x7b, 0x57, 0, 0, 0]), lookup(&table, [0x84, 0x7b, 0x57, 9, 9, 9]));
    assert!(lookup(&table, [0x84, 0x7b, 0x58, 0, 0, 0]).is_none());
}

#[test]
fn reserving_twice_is_reserving_once() {
    let mut pp = PortProvider::with_used(&[]);
    pp.reserve(&[40000, 40001]);
    pp.reserve(&[40000, 40001]);
    for _ in 0..300 {
        if let Some(p) = pp.free_port(|_| true) {
            assert!(p != 40000 && p != 40001);
        }
    }
}

#[test]
fn dns_name_ends_in_zero() {
    for name in ["", "local", "a.b.c"] {
        assert_eq!(*encode_name(name).last().unwrap(), 0);
    }
}
