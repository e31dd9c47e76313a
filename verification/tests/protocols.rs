use universal_scanner::config::Config;
use universal_scanner::devices::Device;
use universal_scanner::ip::IpAddr;
use universal_scanner::mdns::{MdnsAnswer, MdnsData};
use universal_scanner::protocols::arecont::arecont_convert;
use universal_scanner::protocols::axis::axis_convert;
use universal_scanner::protocols::dispatch::parse_datagram;
use universal_scanner::protocols::engines::Engine;
use universal_scanner::protocols::googlecast::googlecast_convert;
use universal_scanner::protocols::vision360::key_value_pairs;
use universal_scanner::protocols::vivotek::Vivotek;
use universal_scanner::protocols::{advantech, microchip, ssdp, tvt, vision360, vstarcam, wsd};

fn ip(s: &str) -> IpAddr {
    IpAddr::parse(s).unwrap()
}

fn a(addr: &str) -> MdnsAnswer {
    MdnsAnswer { rrtype: 1, name: "cam.local".to_string(), data: MdnsData::A(ip(addr)) }
}

fn ptr(name: &str) -> MdnsAnswer {
    MdnsAnswer { rrtype: 12, name: "cam.local".to_string(), data: MdnsData::Ptr(name.to_string()) }
}

fn txt(entries: &[&str]) -> MdnsAnswer {
    MdnsAnswer {
        rrtype: 16,
        name: "cam.local".to_string(),
        data: MdnsData::Txt(entries.iter().map(|s| s.to_string()).collect()),
    }
}

fn with_zeroconf(on: bool) -> Config {
    let mut c = Config::default();
    c.force_zeroconf = on;
    c
}

// ---------------------------------------------------------------- probes

#[test]
fn vstarcam_probe_bytes_pinned() {
    assert_eq!(vstarcam::build_probe(), [0x44, 0x48, 0x01, 0x01]);
}

#[test]
fn advantech_probe_bytes_pinned() {
    let p = advantech::build_probe();
    assert_eq!(p.len(), 60);
    assert_eq!(&p[0..12], &[0x4d, 0x41, 0x44, 0x41, 0x00, 0x00, 0x00, 0x83, 0x01, 0x00, 0x50, 0x00]);
    assert!(p[12..53].iter().all(|&b| b == 0));
    assert_eq!(p[0x35], 0x20);
    assert!(p[0x36..60].iter().all(|&b| b == 0));
}

#[test]
fn tvt_probe_bytes_pinned() {
    let p = tvt::build_probe();
    assert_eq!(p.len(), 140);
    assert_eq!(&p[0..9], b"MHED\x09\x00\x01\x00\x01");
    assert!(p[9..].iter().all(|&b| b == 0));
}

#[test]
fn vivotek_probe_bytes_pinned() {
    assert_eq!(Vivotek::new().build_probe(), vec![0x01, 0x4A, 0x5D, 0x8F, 0x1C]);
}

#[test]
fn vivotek_session_advances() {
    let mut v = Vivotek::new();
    v.build_probe();
    assert_eq!(v.build_probe()[0], 0x02);
}

// ---------------------------------------------------------------- 360Vision

#[test]
fn key_value_pairs_manual_regex() {
    let pairs = key_value_pairs("TYPE=IPDOME KEY='00:11' ID=123 X=\"d\"");
    assert_eq!(
        pairs,
        vec![
            ("TYPE".to_string(), "IPDOME".to_string()),
            ("KEY".to_string(), "00:11".to_string()),
            ("ID".to_string(), "123".to_string()),
            ("X".to_string(), "d".to_string()),
        ]
    );
}

#[test]
fn key_value_unterminated_quote_falls_back() {
    let pairs = key_value_pairs("Q='abc");
    assert_eq!(pairs, vec![("Q".to_string(), "'abc".to_string())]);
}

#[test]
fn key_value_pairs_value_at_end_is_empty() {
    assert_eq!(key_value_pairs("A="), vec![("A".to_string(), String::new())]);
    assert_eq!(
        key_value_pairs("TYPE=X KEY="),
        vec![("TYPE".to_string(), "X".to_string()), ("KEY".to_string(), String::new())]
    );
}

#[test]
fn vision360_key_at_end_gives_empty_serial() {
    let devs = vision360::parse(ip("240.0.13.0"), b"TYPE=CAM KEY=").unwrap();
    assert_eq!(devs.len(), 1);
    assert_eq!(devs[0].device_type, "CAM");
    assert_eq!(devs[0].serial, "");
}

#[test]
fn vision360_echo_dropped() {
    assert!(vision360::parse(ip("240.0.13.0"), b"DISCOVER\n").unwrap().is_empty());
}

#[test]
fn vision360_newline_quirk_drops_char() {
    let devs = vision360::parse(ip("240.0.13.0"), b"TYPE=CAM1\nKEY=SN123\n").unwrap();
    assert_eq!(devs.len(), 1);
    assert_eq!(devs[0].protocol, "360Vision");
    assert_eq!(devs[0].version, 1);
    assert_eq!(devs[0].device_type, "CAM");
    assert_eq!(devs[0].serial, "Unknown");
}

#[test]
fn vision360_quotes_stripped_without_newline() {
    let devs = vision360::parse(ip("240.0.13.0"), br#"TYPE="T9" KEY='SN-9'"#).unwrap();
    assert_eq!(devs.len(), 1);
    assert_eq!(devs[0].device_type, "T9");
    assert_eq!(devs[0].serial, "SN-9");
}

#[test]
fn vision360_defaults_when_no_keys() {
    let devs = vision360::parse(ip("240.0.13.0"), b"hello").unwrap();
    assert_eq!(devs.len(), 1);
    assert_eq!(devs[0].device_type, "Unknown");
    assert_eq!(devs[0].serial, "Unknown");
    assert_eq!(devs[0].ip, ip("240.0.13.0"));
}

// ---------------------------------------------------------------- SSDP / WSD / Microchip

const SSDP_RESP: &str = "HTTP/1.1 200 OK\r\nCACHE-CONTROL: max-age=10000\r\nDATE: Sun, 09 Nov 2014 22:42:41 GMT\r\nEXT:\r\nLOCATION: http://192.168.1.10:80/\r\nSERVER: UPnP/1.0 Realtek/4.0.20 IP/1.00\r\nST: upnp:rootdevice\r\nUSN: uuid:34206042-404E-C54A-9244-9D405C306700::upnp:rootdevice\r\n\r\n";

#[test]
fn ssdp_parse_response() {
    let devs = ssdp::parse(ip("240.0.1.0"), SSDP_RESP.as_bytes());
    assert_eq!(devs.len(), 1);
    let d = &devs[0];
    assert_eq!(d.protocol, "SSDP");
    assert_eq!(d.version, 0);
    assert_eq!(d.ip, ip("240.0.1.0"));
    assert_eq!(d.device_type, "IP/1.00");
    assert_eq!(d.serial, "34206042-404E-C54A-9244-9D405C306700");
}

#[test]
fn ssdp_empty_usn_not_reported() {
    let body = "HTTP/1.1 200 OK\r\nSERVER: X/1.0\r\n\r\n";
    assert!(ssdp::parse(ip("240.0.1.0"), body.as_bytes()).is_empty());
}

#[test]
fn ssdp_no_server_is_anonymous() {
    let body = "HTTP/1.1 200 OK\r\nUSN: uuid:abc-123::upnp:rootdevice\r\n\r\n";
    let devs = ssdp::parse(ip("240.0.1.0"), body.as_bytes());
    assert_eq!(devs.len(), 1);
    assert_eq!(devs[0].device_type, "anonymous");
    assert_eq!(devs[0].serial, "abc-123");
}

#[test]
fn ssdp_bare_slash_not_part_of_token() {
    let body = "HTTP/1.1 200 OK\r\nSERVER: a/\r\nUSN: uuid:abc-123::upnp:rootdevice\r\n\r\n";
    let devs = ssdp::parse(ip("240.0.1.0"), body.as_bytes());
    assert_eq!(devs.len(), 1);
    assert_eq!(devs[0].device_type, "a");
    let body = "HTTP/1.1 200 OK\r\nSERVER: Linux/ 3.4, cam/, x/2\r\nUSN: uuid:abc-123\r\n\r\n";
    let devs = ssdp::parse(ip("240.0.1.0"), body.as_bytes());
    assert_eq!(devs[0].device_type, "x/2");
}

#[test]
fn wsd_parses_address_and_types() {
    let xml = b"<?xml version=\"1.0\" encoding=\"UTF-8\"?><e:Envelope xmlns:a=\"http://schemas.xmlsoap.org/ws/2004/08/addressing\" xmlns:d=\"http://schemas.xmlsoap.org/ws/2005/04/discovery\"><e:Body><d:ProbeMatches><d:ProbeMatch><a:EndpointReference><a:Address>urn:uuid:11223344-5566-7788-9900-000000000002</a:Address></a:EndpointReference><d:Types>Virtual tds:Device</d:Types></d:ProbeMatch></d:ProbeMatches></e:Body></e:Envelope>";
    let devs = wsd::parse(ip("240.0.2.0"), xml);
    assert_eq!(devs.len(), 1);
    assert_eq!(devs[0].protocol, "WSDiscovery");
    assert_eq!(devs[0].version, 0);
    assert_eq!(devs[0].device_type, "Virtual Device");
    assert_eq!(devs[0].serial, "11223344-5566-7788-9900-000000000002");
}

#[test]
fn wsd_missing_types_not_reported() {
    let xml = b"<e:Body><d:ProbeMatches><d:ProbeMatch><a:EndpointReference><a:Address>urn:uuid:11223344-5566-7788-9900-000000000002</a:Address></a:EndpointReference></d:ProbeMatch></d:ProbeMatches></e:Body>";
    assert!(wsd::parse(ip("240.0.2.0"), xml).is_empty());
}

#[test]
fn wsd_verbatim_probe_is_fixed() {
    let p1 = wsd::build_probe(true, [1; 16]);
    let p2 = wsd::build_probe(true, [2; 16]);
    assert_eq!(p1, p2);
    assert!(String::from_utf8(p1).unwrap().contains("uuid:f686768c-3e60-4f9c-a344-0769929d665c"));
}

fn message_id(p: &[u8]) -> String {
    let p = String::from_utf8(p.to_vec()).unwrap();
    let start = p.find("<a:MessageID>urn:uuid:").unwrap() + "<a:MessageID>urn:uuid:".len();
    let end = p[start..].find("</a:MessageID>").unwrap() + start;
    p[start..end].to_string()
}

#[test]
fn wsd_random_probe_has_fresh_message_id() {
    let bytes = [70, 235, 208, 238, 14, 109, 67, 201, 185, 13, 204, 195, 90, 145, 63, 62];
    let p = wsd::build_probe(false, bytes);
    assert!(!String::from_utf8(p.clone()).unwrap().contains("uuid:f686768c-3e60-4f9c-a344-0769929d665c"));
    assert_eq!(message_id(&p), "46ebd0ee-0e6d-43c9-b90d-ccc35a913f3e");
    assert_eq!(message_id(&wsd::build_probe(false, [0; 16])), "00000000-0000-4000-8000-000000000000");
    assert_eq!(message_id(&wsd::build_probe(false, [0xff; 16])), "ffffffff-ffff-4fff-bfff-ffffffffffff");
    assert_ne!(wsd::build_probe(false, [0; 16]), wsd::build_probe(false, [1; 16]));
}

#[test]
fn microchip_gce_four_lines() {
    let devs = microchip::parse(ip("240.0.24.0"), b"hostname\n00-11-22-33-44-55\n80\nVirtual");
    assert_eq!(devs.len(), 1);
    assert_eq!(devs[0].protocol, "GCE");
    assert_eq!(devs[0].version, 1);
    assert_eq!(devs[0].device_type, "Virtual");
    assert_eq!(devs[0].serial, "00-11-22-33-44-55");
    assert_eq!(devs[0].ip.to_text(), "240.0.24.0");
}

#[test]
fn microchip_two_lines() {
    let devs = microchip::parse(ip("240.0.24.0"), b"Virtual\n00-11-22-33-44-55");
    assert_eq!(devs.len(), 1);
    assert_eq!(devs[0].protocol, "Microchip");
    assert_eq!(devs[0].device_type, "Virtual");
    assert_eq!(devs[0].serial, "00-11-22-33-44-55");
}

#[test]
fn microchip_echo_discarded() {
    assert!(microchip::parse(ip("240.0.24.0"), b"Discover GCE Devices").is_empty());
}

#[test]
fn microchip_invalid_utf8_unknown() {
    let devs = microchip::parse(ip("240.0.24.0"), &[0xFF, 0xFE]);
    assert_eq!(devs.len(), 1);
    assert_eq!(devs[0].protocol, "Microchip");
    assert_eq!(devs[0].device_type, "Unknown");
    assert_eq!(devs[0].serial, "");
}

// ---------------------------------------------------------------- dispatch

#[test]
fn dispatch_matches_module_parser() {
    let from = ip("240.0.1.0");
    let direct = ssdp::parse(from, SSDP_RESP.as_bytes());
    let via: Vec<Device> = parse_datagram(Engine::Ssdp, from, SSDP_RESP.as_bytes()).unwrap();
    assert_eq!(direct.len(), via.len());
    assert_eq!(direct[0].serial, via[0].serial);
    // The same bytes read by another engine report nothing.
    assert!(parse_datagram(Engine::Lantronix, from, SSDP_RESP.as_bytes()).unwrap().is_empty());
}

#[test]
fn dispatch_mdns_engines_report_nothing() {
    let from = ip("240.0.0.0");
    for e in [Engine::Axis, Engine::GoogleCast, Engine::Arecont] {
        assert!(parse_datagram(e, from, SSDP_RESP.as_bytes()).unwrap().is_empty());
    }
}

#[test]
fn dispatch_vision360_unreadable_is_none() {
    // A line break right after a two-byte character cannot be cut one character earlier.
    let data = "TYPE=é\nKEY=1".as_bytes();
    assert!(parse_datagram(Engine::Vision360, ip("240.0.13.0"), data).is_none());
}

// ---------------------------------------------------------------- mDNS consumers

#[test]
fn axis_empty_addresses_no_report() {
    let cfg = Config::default();
    let answers = vec![ptr("cam123.axis-video._tcp.local"), txt(&["SN=ABC123"])];
    assert!(axis_convert(&answers, &cfg).is_empty());
}

#[test]
fn axis_empty_txt_aborts() {
    let cfg = Config::default();
    let answers = vec![a("192.168.1.5"), txt(&[])];
    assert!(axis_convert(&answers, &cfg).is_empty());
}

#[test]
fn axis_autoconf_filtered_by_default() {
    let answers = vec![a("169.254.1.1"), a("192.168.1.5")];
    let devs = axis_convert(&answers, &Config::default());
    assert_eq!(devs.len(), 1);
    assert_eq!(devs[0].ip, ip("192.168.1.5"));
    assert_eq!(devs[0].device_type, "unknown");
    assert_eq!(devs[0].serial, "unknown");
    let devs = axis_convert(&answers, &with_zeroconf(true));
    assert_eq!(devs.len(), 2);
    assert_eq!(devs[0].ip, ip("192.168.1.5"));
    assert_eq!(devs[1].ip, ip("169.254.1.1"));
}

#[test]
fn googlecast_no_address_no_report() {
    let answers = vec![txt(&["fn=Chromecast One"])];
    assert!(googlecast_convert(&answers).is_empty());
}

#[test]
fn googlecast_empty_txt_aborts() {
    let answers = vec![a("192.168.1.7"), txt(&[])];
    assert!(googlecast_convert(&answers).is_empty());
}

#[test]
fn arecont_empty_addresses_no_report() {
    let cfg = Config::default();
    let answers = vec![ptr("AV1234-SN99.arec._tcp.local"), txt(&["MAC=AV1/2"])];
    assert!(arecont_convert(&answers, &cfg).is_empty());
}

#[test]
fn arecont_autoconf_filtered() {
    let answers = vec![a("169.254.1.1"), a("192.168.1.5")];
    let devs = arecont_convert(&answers, &Config::default());
    assert_eq!(devs.len(), 1);
    assert_eq!(devs[0].ip, ip("192.168.1.5"));
    assert_eq!(devs[0].device_type, "unknown");
    assert_eq!(devs[0].serial, "");
    let devs = arecont_convert(&answers, &with_zeroconf(true));
    assert_eq!(devs.len(), 2);
    assert_eq!(devs[0].ip, ip("192.168.1.5"));
    assert_eq!(devs[1].ip, ip("169.254.1.1"));
}

#[test]
fn arecont_plain_ptr_model() {
    let answers = vec![a("192.168.1.50"), ptr("plain"), txt(&[])];
    let devs = arecont_convert(&answers, &Config::default());
    assert_eq!(devs.len(), 1);
    assert_eq!(devs[0].device_type, "plain");
    assert_eq!(devs[0].serial, "");
}

// ---------------------------------------------------------------- TVT answers

fn tvt_answer(ip4: [u8; 4], mac: [u8; 6], serial: &str, dev_type: &str) -> [u8; 240] {
    let mut a = [0u8; 240];
    a[0..4].copy_from_slice(b"MHED");
    a[4] = 0x08;
    a[6] = 0x01;
    a[8] = 0x02;
    a[0x0C..0x0C + dev_type.len()].copy_from_slice(dev_type.as_bytes());
    a[0x20..0x26].copy_from_slice(&mac);
    a[0x28..0x2C].copy_from_slice(&ip4);
    a[0x2C..0x30].copy_from_slice(&[255, 255, 255, 0]);
    a[0x30..0x34].copy_from_slice(&[192, 168, 0, 1]);
    let s = serial.as_bytes();
    let n = s.len().min(12);
    a[0x8C..0x8C + n].copy_from_slice(&s[..n]);
    a
}

#[test]
fn tvt_answer_parsed() {
    let a = tvt_answer([192, 168, 0, 88], [0x00, 0x18, 0xAE, 0x9B, 0xE2, 0x80], "IE280042L467", "IPC");
    let devs = tvt::parse(ip("240.0.31.0"), &a);
    assert_eq!(devs.len(), 1);
    assert_eq!(devs[0].protocol, "TVT");
    assert_eq!(devs[0].version, 1);
    assert_eq!(devs[0].ip, ip("192.168.0.88"));
    assert_eq!(devs[0].mac, "00:18:AE:9B:E2:80");
    assert_eq!(devs[0].device_type, "IPC");
    assert_eq!(devs[0].serial, "IE280042L467");
}

#[test]
fn tvt_zero_ip_falls_back_to_from() {
    let a = tvt_answer([0, 0, 0, 0], [0; 6], "SN1", "IPC");
    let devs = tvt::parse(ip("240.0.31.0"), &a);
    assert_eq!(devs.len(), 1);
    assert_eq!(devs[0].ip, ip("240.0.31.0"));
}

#[test]
fn tvt_empty_serial_falls_back_to_mac() {
    let a = tvt_answer([10, 0, 0, 9], [0xAA, 0xBB, 0xCC, 0xDD, 0xEE, 0xFF], "", "IPC");
    let devs = tvt::parse(ip("240.0.31.0"), &a);
    assert_eq!(devs[0].serial, "AA:BB:CC:DD:EE:FF");
    assert_eq!(devs[0].mac, "AA:BB:CC:DD:EE:FF");
}

#[test]
fn tvt_bad_packets_discarded() {
    let from = ip("240.0.31.0");
    assert!(tvt::parse(from, &tvt::build_probe()).is_empty());
    let mut a = tvt_answer([1, 2, 3, 4], [0; 6], "SN", "IPC");
    a[0] = b'X';
    assert!(tvt::parse(from, &a).is_empty());
    assert!(tvt::parse(from, &a[..100]).is_empty());
}

#[test]
fn axis_basic() {
    let answers = vec![a("192.168.1.50"), ptr("cam123.axis-video._tcp.local"), txt(&["SN=ABC123"])];
    let devs = axis_convert(&answers, &Config::default());
    assert_eq!(devs.len(), 1);
    assert_eq!(devs[0].protocol, "Axis");
    assert_eq!(devs[0].version, 1);
    assert_eq!(devs[0].ip, ip("192.168.1.50"));
    assert_eq!(devs[0].device_type, "cam123");
    assert_eq!(devs[0].serial, "ABC123");
}

#[test]
fn axis_ptr_without_dot_keeps_whole_name() {
    let answers = vec![a("192.168.1.50"), ptr("camplain")];
    let devs = axis_convert(&answers, &Config::default());
    assert_eq!(devs.len(), 1);
    assert_eq!(devs[0].device_type, "camplain");
    assert_eq!(devs[0].serial, "unknown");
}

#[test]
fn axis_dash_mac_fallback() {
    let answers = vec![a("192.168.1.5"), ptr("cam1 - A1B2C3D4E5F6.axis-video._tcp.local")];
    let devs = axis_convert(&answers, &Config::default());
    assert_eq!(devs.len(), 1);
    assert_eq!(devs[0].device_type, "cam1");
    assert_eq!(devs[0].serial, "A1B2C3D4E5F6");
}

#[test]
fn axis_txt_wins_over_dash() {
    let answers = vec![a("192.168.1.5"), ptr("cam1 - A1B2C3D4E5F6.axis-video._tcp.local"), txt(&["SN=ABC123"])];
    let devs = axis_convert(&answers, &Config::default());
    assert_eq!(devs.len(), 1);
    assert_eq!(devs[0].device_type, "cam1");
    assert_eq!(devs[0].serial, "ABC123");
}

#[test]
fn axis_txt_no_eq_keeps_whole_value() {
    let answers = vec![a("192.168.1.5"), txt(&["plainserial"])];
    let devs = axis_convert(&answers, &Config::default());
    assert_eq!(devs.len(), 1);
    assert_eq!(devs[0].serial, "plainserial");
}

fn aaaa(addr: &str) -> MdnsAnswer {
    MdnsAnswer { rrtype: 28, name: "cam.local".to_string(), data: MdnsData::AAAA(ip(addr)) }
}

#[test]
fn googlecast_a_and_aaaa_two_devices() {
    let devs = googlecast_convert(&[a("192.168.1.7"), aaaa("fe80::1")]);
    assert_eq!(devs.len(), 2);
    assert_eq!(devs[0].ip, ip("192.168.1.7"));
    assert_eq!(devs[1].ip, ip("fe80::1"));
    for d in &devs {
        assert_eq!(d.protocol, "Google");
        assert_eq!(d.version, 1);
        assert_eq!(d.device_type, "unknown");
        assert_eq!(d.serial, "unknown");
    }
}

#[test]
fn googlecast_only_first_a_and_aaaa() {
    let devs = googlecast_convert(&[a("192.168.1.7"), a("192.168.1.8"), aaaa("fe80::1"), aaaa("fe80::2")]);
    assert_eq!(devs.len(), 2);
    assert_eq!(devs[0].ip, ip("192.168.1.7"));
    assert_eq!(devs[1].ip, ip("fe80::1"));
}

#[test]
fn googlecast_txt_fn_md() {
    let devs = googlecast_convert(&[a("192.168.1.7"), txt(&["fn=Chromecast One", "md=Cast Audio"])]);
    assert_eq!(devs.len(), 1);
    assert_eq!(devs[0].device_type, "Cast Audio");
    assert_eq!(devs[0].serial, "Chromecast One");
}

#[test]
fn googlecast_txt_multi_eq_ignored() {
    let devs = googlecast_convert(&[a("192.168.1.7"), txt(&["a=b=c"])]);
    assert_eq!(devs.len(), 1);
    assert_eq!(devs[0].device_type, "unknown");
    assert_eq!(devs[0].serial, "unknown");
}

#[test]
fn googlecast_txt_no_eq_skipped() {
    let devs = googlecast_convert(&[a("192.168.1.7"), txt(&["plain", "md=Cast Audio"])]);
    assert_eq!(devs.len(), 1);
    assert_eq!(devs[0].device_type, "unknown");
    assert_eq!(devs[0].serial, "unknown");
}

#[test]
fn googlecast_txt_key_trimmed() {
    let devs = googlecast_convert(&[a("192.168.1.7"), txt(&[" fn =Cast Audio ", "  md =Cast 2 "])]);
    assert_eq!(devs.len(), 1);
    assert_eq!(devs[0].device_type, "Cast 2");
    assert_eq!(devs[0].serial, "Cast Audio");
}

#[test]
fn arecont_method1_dash() {
    let devs = arecont_convert(&[a("192.168.1.50"), ptr("AV1234-SN99.arec._tcp.local")], &Config::default());
    assert_eq!(devs.len(), 1);
    assert_eq!(devs[0].protocol, "Arecont");
    assert_eq!(devs[0].version, 1);
    assert_eq!(devs[0].ip, ip("192.168.1.50"));
    assert_eq!(devs[0].device_type, "AV1234");
    assert_eq!(devs[0].serial, "SN99");
}

#[test]
fn arecont_mac_slash_overwrites_model() {
    let answers = vec![a("192.168.1.50"), ptr("plain.arec._tcp.local"), txt(&["MAC=AV1234/5678"])];
    let devs = arecont_convert(&answers, &Config::default());
    assert_eq!(devs.len(), 1);
    assert_eq!(devs[0].device_type, "AV5678");
    assert_eq!(devs[0].serial, "");
}

#[test]
fn arecont_mac_dash_prefix_when_no_serial() {
    let answers = vec![a("192.168.1.50"), ptr("plain.arec._tcp.local"), txt(&["MAC=ABCD-1234"])];
    let devs = arecont_convert(&answers, &Config::default());
    assert_eq!(devs.len(), 1);
    assert_eq!(devs[0].device_type, "ABCD");
    assert_eq!(devs[0].serial, "");
}

#[test]
fn arecont_serial_av_replace() {
    let devs = arecont_convert(&[a("192.168.1.50"), ptr("x-AV5.arec._tcp.local")], &Config::default());
    assert_eq!(devs.len(), 1);
    assert_eq!(devs[0].device_type, "x");
    assert_eq!(devs[0].serial, "001A075");
}

#[test]
fn arecont_variables_first_wins() {
    let answers = vec![a("192.168.1.50"), ptr("plain.arec._tcp.local"), txt(&["MAC=AB/1", "MAC=CD/2"])];
    let devs = arecont_convert(&answers, &Config::default());
    assert_eq!(devs.len(), 1);
    assert_eq!(devs[0].device_type, "AV1");
}

#[test]
fn ssdp_invalid_utf8_replaced() {
    let body = b"HTTP/1.1 200 OK\r\nSERVER: X\xff/1.0\r\nUSN: uuid:abc::upnp:rootdevice\r\n\r\n";
    let devs = ssdp::parse(ip("240.0.1.0"), body);
    assert_eq!(devs.len(), 1);
    assert_eq!(devs[0].device_type, "X\u{FFFD}/1.0");
}

#[test]
fn ssdp_engine_struct() {
    let e = ssdp::Ssdp;
    assert_eq!(e.name(), "SSDP");
    assert_eq!(e.color(), 0x006400);
    assert_eq!(e.used_ports(), vec![1900]);
    let devs = e.parse(ip("240.0.1.0"), SSDP_RESP.as_bytes());
    assert_eq!(devs.len(), 1);
    assert_eq!(devs[0].device_type, "IP/1.00");
}

#[test]
fn googlecast_entry_rules_last_wins_and_trim() {
    let devs = googlecast_convert(&[
        a("192.168.1.7"),
        txt(&["fn = First ", "md= M1", "id=zz", "fn=Second"]),
        txt(&["md=M2", "x"]),
    ]);
    assert_eq!(devs.len(), 1);
    assert_eq!(devs[0].serial, "Second");
    assert_eq!(devs[0].device_type, "M2");
}
