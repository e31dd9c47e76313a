use universal_scanner::config::Error;
use universal_scanner::tvt_provision::{
    build_set_ip_request, hex_dump, parse_mac, set_ip_group, SetIpRequest, DEFAULT_PROTOCOL_VERSION,
    MAX_PLAINTEXT_PASSWORD, PACKET_SIZE, SET_IP_PORT,
};

const OFF_VERSION: usize = 0x04;
const OFF_MSG_TYPE: usize = 8;
const OFF_MAC: usize = 0x20;
const OFF_IP: usize = 0x28;
const OFF_MASK: usize = 0x2c;
const OFF_GATEWAY: usize = 0x30;
const OFF_PASSWORD: usize = 0x54;
const OFF_DHCP: usize = 0x8a;
const TYPE_SET_IP: u8 = 0x03;

fn sample_req() -> SetIpRequest {
    SetIpRequest {
        mac: [0x00, 0x11, 0x22, 0x33, 0x44, 0x55],
        password: "admin".to_string(),
        new_ip: [192, 168, 0, 90],
        subnet_mask: [255, 255, 255, 0],
        gateway: [192, 168, 0, 1],
        dhcp: false,
        protocol_version: 0,
    }
}

#[test]
fn parse_mac_valid() {
    assert_eq!(parse_mac("00:18:AE:9B:E2:80").unwrap(), [0x00, 0x18, 0xae, 0x9b, 0xe2, 0x80]);
}

#[test]
fn parse_mac_invalid() {
    assert!(parse_mac("00:18:AE:9B:E2").is_err());
    assert!(parse_mac("00:18:AE:9B:E2:8G").is_err());
    assert!(parse_mac("0018AE9BE280").is_err());
}

#[test]
fn parse_mac_error_quotes_text() {
    match parse_mac("nope") {
        Err(Error::Config(m)) => assert_eq!(m, "invalid MAC address: nope"),
        other => panic!("unexpected: {other:?}"),
    }
}

#[test]
fn build_layout_pinned() {
    let p = build_set_ip_request(&sample_req()).unwrap();
    assert_eq!(p.len(), PACKET_SIZE);
    assert_eq!(&p[0..4], b"MHED");
    assert_eq!(&p[OFF_VERSION..OFF_VERSION + 4], &DEFAULT_PROTOCOL_VERSION.to_le_bytes());
    assert_eq!(p[OFF_MSG_TYPE], TYPE_SET_IP);
    assert_eq!(&p[OFF_MAC..OFF_MAC + 6], &[0x00, 0x11, 0x22, 0x33, 0x44, 0x55]);
    assert_eq!(&p[OFF_IP..OFF_IP + 4], &[0xc0, 0xa8, 0x00, 0x5a]);
    assert_eq!(&p[OFF_MASK..OFF_MASK + 4], &[0xff, 0xff, 0xff, 0x00]);
    assert_eq!(&p[OFF_GATEWAY..OFF_GATEWAY + 4], &[0xc0, 0xa8, 0x00, 0x01]);
    // base64("admin") = "YWRtaW4=": the encoder's output lands in the packet.
    assert_eq!(&p[OFF_PASSWORD..OFF_PASSWORD + 8], b"YWRtaW4=");
    assert_eq!(p[OFF_PASSWORD + 8], 0);
    assert_eq!(p[OFF_DHCP], 0);
    assert!(p[OFF_DHCP + 1..].iter().all(|&b| b == 0));
}

#[test]
fn build_dhcp_and_custom_version() {
    let mut r = sample_req();
    r.dhcp = true;
    r.protocol_version = 0x0001_0009;
    let p = build_set_ip_request(&r).unwrap();
    assert_eq!(p[OFF_DHCP], 1);
    assert_eq!(&p[OFF_VERSION..OFF_VERSION + 4], &0x0001_0009u32.to_le_bytes());
}

#[test]
fn build_empty_password_ok() {
    let mut r = sample_req();
    r.password.clear();
    let p = build_set_ip_request(&r).unwrap();
    assert!(p[OFF_PASSWORD..].iter().all(|&b| b == 0));
}

#[test]
fn build_password_too_long_rejected() {
    let mut r = sample_req();
    r.password = "x".repeat(MAX_PLAINTEXT_PASSWORD + 1);
    assert!(build_set_ip_request(&r).is_err());
    r.password = "x".repeat(MAX_PLAINTEXT_PASSWORD);
    let p = build_set_ip_request(&r).unwrap();
    // 21 bytes encode to 28 characters, filling the region to 0x70.
    assert_eq!(&p[OFF_PASSWORD..OFF_PASSWORD + 4], b"eHh4");
    assert_ne!(p[0x6f], 0);
}

#[test]
fn build_password_too_long_message() {
    let mut r = sample_req();
    r.password = "x".repeat(22);
    match build_set_ip_request(&r) {
        Err(Error::Config(m)) => assert_eq!(m, "admin password too long for TVT L2 provisioning (max 21 bytes)"),
        other => panic!("unexpected: {:?}", other.map(|_| ())),
    }
}

#[test]
fn hex_dump_redacts_password_region() {
    let p = build_set_ip_request(&sample_req()).unwrap();
    assert_eq!(&p[OFF_PASSWORD..OFF_PASSWORD + 8], b"YWRtaW4=");
    let dump = hex_dump(&p);
    let first = dump.lines().next().unwrap();
    assert!(first.starts_with("0000  4d 48 45 44"));
    let line_0x50 = dump.lines().find(|l| l.starts_with("0050")).unwrap();
    assert!(!line_0x50.contains("59 44 52"));
    assert!(line_0x50.split_whitespace().skip(1).all(|t| t == "00"));
    assert_eq!(dump.lines().count(), 9);
}

#[test]
fn set_ip_destination() {
    assert_eq!(set_ip_group(), [234, 55, 55, 55]);
    assert_eq!(SET_IP_PORT, 23456);
}

#[test]
fn dump_same_for_different_passwords() {
    let a = build_set_ip_request(&sample_req()).unwrap();
    let mut r = sample_req();
    r.password = "another-secret".to_string();
    let b = build_set_ip_request(&r).unwrap();
    assert_ne!(a, b);
    assert_eq!(hex_dump(&a), hex_dump(&b));
}

#[test]
fn hex_dump_blanks_whole_password_area() {
    let p = [0xFFu8; PACKET_SIZE];
    let dump = hex_dump(&p);
    let lines: Vec<&str> = dump.lines().collect();
    assert_eq!(lines.len(), 9);
    assert_eq!(lines[5], "0050  ff ff ff ff 00 00 00 00 00 00 00 00 00 00 00 00");
    assert_eq!(lines[6], "0060  00 00 00 00 00 00 00 00 00 00 00 00 00 00 00 00");
    assert_eq!(lines[7], "0070  00 00 00 00 00 00 00 00 00 00 ff ff ff ff ff ff");
    assert_eq!(lines[8], "0080  ff ff ff ff ff ff ff ff ff ff ff ff");
}

fn set_args(mac: &str, password: &str) -> universal_scanner::cli::TvtSetArgs {
    universal_scanner::cli::TvtSetArgs {
        mac: mac.to_string(),
        ip: [192, 168, 0, 90],
        mask: [255, 255, 255, 0],
        gateway: [192, 168, 0, 1],
        password: password.to_string(),
        dhcp: false,
        version: 0,
        interface: None,
        dry_run: true,
    }
}

#[test]
fn tvt_set_dry_run_prints_hex_with_password_redacted() {
    let req = universal_scanner::tvt_provision::request_from_args(&set_args("00:11:22:33:44:55", "admin")).unwrap();
    let p = build_set_ip_request(&req).unwrap();
    let dump = hex_dump(&p);
    assert!(dump.contains("0000  4d 48 45 44 08 00 01 00 03 00 00 00"));
    assert!(dump.contains("00 11 22 33 44 55"));
    assert!(dump.contains("c0 a8 00 5a"));
    assert!(!dump.contains("YWRtaW4="));
    assert!(!dump.contains("59 57 52 74"));
}

#[test]
fn tvt_set_bad_mac_errors() {
    match universal_scanner::tvt_provision::request_from_args(&set_args("nope", "admin")) {
        Err(Error::Config(m)) => {
            assert!(m.contains("MAC"));
            assert_eq!(m, "invalid MAC address: nope");
        }
        other => panic!("unexpected: {:?}", other.map(|_| ())),
    }
}

#[test]
fn tvt_set_password_too_long_errors() {
    let req = universal_scanner::tvt_provision::request_from_args(&set_args("00:11:22:33:44:55", &"x".repeat(22))).unwrap();
    match build_set_ip_request(&req) {
        Err(Error::Config(m)) => assert!(m.contains("password")),
        other => panic!("unexpected: {:?}", other.map(|_| ())),
    }
}

#[test]
fn mac_text_of_octets_parses_back() {
    for m in [[0u8; 6], [0xff; 6], [0x00, 0x11, 0x22, 0xAB, 0xcd, 0xEF]] {
        let text = format!("{:02X}:{:02X}:{:02X}:{:02X}:{:02X}:{:02X}", m[0], m[1], m[2], m[3], m[4], m[5]);
        assert_eq!(parse_mac(&text).unwrap(), m);
    }
}
