use universal_scanner::ip::IpAddr;
use universal_scanner::protocols::{advantech, bosch, cyberpower, dahua2, nicevision, panasonic, dahua1, eaton, eden, foscam, gige, hanwha, hikvision, lantronix, mssql, sony, ubiquiti, vivotek, vstarcam};

const SONY_START: u8 = 0x02;
const SONY_END: u8 = 0x03;
const SONY_EOS: u8 = 0xFF;

fn ip(s: &str) -> IpAddr {
    IpAddr::parse(s).unwrap()
}

// ---------------------------------------------------------------- Dahua (legacy)

fn section1(section2_len: u8, section3_len: u16, device_type: &str, ip_u32: u32) -> Vec<u8> {
    let mut s = vec![0u8; 0x78];
    s[0] = 0xb3;
    s[2] = section2_len;
    s[0x14..0x16].copy_from_slice(&section3_len.to_le_bytes());
    let dt = device_type.as_bytes();
    s[0x28..0x28 + dt.len()].copy_from_slice(dt);
    s[0x38..0x3C].copy_from_slice(&ip_u32.to_le_bytes());
    s
}

#[test]
fn dahua1_bad_magic_discarded() {
    let mut frame = section1(0, 0, "", 0);
    frame[0] = 0x00;
    assert!(dahua1::parse(ip("240.0.3.0"), &frame).is_empty());
}

#[test]
fn dahua1_bad_length_discarded() {
    let mut frame = section1(24, 88, "", 0);
    frame.resize(120 + 24 + 88 - 1, 0);
    assert!(dahua1::parse(ip("240.0.3.0"), &frame).is_empty());
}

#[test]
fn dahua1_correct_frame_reports_v4() {
    let mut frame = section1(25, 18, "AB", 0x6401A8C0);
    frame.extend_from_slice(b"00:11:22:33:44:55Override");
    frame.extend_from_slice(b"SerialNo:SN12345\r\n");
    let devs = dahua1::parse(ip("240.0.3.0"), &frame);
    assert_eq!(devs.len(), 1);
    assert_eq!(devs[0].protocol, "Dahua");
    assert_eq!(devs[0].version, 1);
    assert_eq!(devs[0].ip, ip("192.168.1.100"));
    assert_eq!(devs[0].device_type, "Override");
    assert_eq!(devs[0].serial, "SN12345");
}

#[test]
fn dahua1_zero_ip_falls_back_to_from() {
    let mut frame = section1(17, 0, "CamY", 0);
    frame.extend_from_slice(b"00:11:22:33:44:55");
    let devs = dahua1::parse(ip("240.0.3.0"), &frame);
    assert_eq!(devs.len(), 1);
    assert_eq!(devs[0].ip, ip("240.0.3.0"));
    assert_eq!(devs[0].device_type, "CamY");
    assert_eq!(devs[0].serial, "00:11:22:33:44:55");
}

#[test]
fn dahua1_ipv6_reports_second_entry_v2() {
    let sec3 = b"IPv6Addr:fe80::1/64;gateway:fe80::\r\nSerialNo:SN1\r\n";
    let mut frame = section1(17, sec3.len() as u16, "CamZ", 0x6401A8C0);
    frame.extend_from_slice(b"00:11:22:33:44:55");
    frame.extend_from_slice(sec3);
    let devs = dahua1::parse(ip("240.0.3.0"), &frame);
    assert_eq!(devs.len(), 2);
    assert_eq!(devs[0].version, 1);
    assert_eq!(devs[1].version, 2);
    assert_eq!(devs[1].ip, ip("fe80::1"));
}

// ---------------------------------------------------------------- GigE Vision

#[test]
fn gige_size_255_and_257_discarded() {
    assert!(gige::parse(ip("240.0.17.0"), &[0u8; 255]).is_empty());
    assert!(gige::parse(ip("240.0.17.0"), &[0u8; 257]).is_empty());
}

#[test]
fn gige_all_zero_payload_len_discarded() {
    assert!(gige::parse(ip("240.0.17.0"), &[0u8; 256]).is_empty());
}

#[test]
fn gige_zero_ip_falls_back_to_from() {
    let mut data = vec![0u8; 0x100];
    data[4..6].copy_from_slice(&248u16.to_be_bytes());
    let devs = gige::parse(ip("240.0.17.0"), &data);
    assert_eq!(devs.len(), 1);
    assert_eq!(devs[0].protocol, "GigEVision");
    assert_eq!(devs[0].version, 0);
    assert_eq!(devs[0].ip, ip("240.0.17.0"));
    assert_eq!(devs[0].mac, "00:00:00:00:00:00");
    assert_eq!(devs[0].serial, "00:00:00:00:00:00");
    assert_eq!(devs[0].device_type, "");
}

#[test]
fn gige_full_fields_reported() {
    let mut data = vec![0u8; 0x100];
    data[4..6].copy_from_slice(&248u16.to_be_bytes());
    data[8..10].copy_from_slice(&1u16.to_be_bytes());
    data[10..12].copy_from_slice(&2u16.to_be_bytes());
    data[0x12..0x18].copy_from_slice(&[0x11, 0x22, 0x33, 0x44, 0x55, 0x66]);
    data[0x2C..0x30].copy_from_slice(&0xC0A80709u32.to_le_bytes());
    data[0x50..0x54].copy_from_slice(b"GigA");
    data[0x70..0x72].copy_from_slice(b"M1");
    data[0xE0..0xE4].copy_from_slice(b"S123");
    let devs = gige::parse(ip("240.0.17.0"), &data);
    assert_eq!(devs.len(), 1);
    assert_eq!(devs[0].protocol, "GigA");
    assert_eq!(devs[0].version, 0);
    assert_eq!(devs[0].ip, ip("192.168.7.9"));
    assert_eq!(devs[0].mac, "11:22:33:44:55:66");
    assert_eq!(devs[0].device_type, "M1");
    assert_eq!(devs[0].serial, "S123");
}

#[test]
fn gige_probe_counter_advances() {
    let mut g = gige::GigEVision::new();
    assert_eq!(g.next_probe(), [0x42, 0x11, 0x00, 0x02, 0x00, 0x00, 0x01, 0x00]);
    assert_eq!(g.next_probe(), [0x42, 0x11, 0x00, 0x02, 0x00, 0x00, 0x02, 0x00]);
}

// ---------------------------------------------------------------- VStarcam

fn vstarcam_frame(ipf: &[u8; 16], serial: &[u8; 32], name: &[u8; 32]) -> Vec<u8> {
    let mut d = vec![0u8; 0x100];
    d[0..4].copy_from_slice(&0x44480108u32.to_be_bytes());
    d[0x04..0x14].copy_from_slice(ipf);
    d[0x5C..0x7C].copy_from_slice(serial);
    d[0x7C..0x9C].copy_from_slice(name);
    d
}

fn padded<const N: usize>(s: &str) -> [u8; N] {
    let mut a = [0u8; N];
    a[..s.len()].copy_from_slice(s.as_bytes());
    a
}

#[test]
fn vstarcam_short_packet_dropped() {
    let mut f = vec![0u8; 0xFF];
    f[0..4].copy_from_slice(&0x44480108u32.to_be_bytes());
    assert!(vstarcam::parse(ip("240.0.18.0"), &f).is_empty());
}

#[test]
fn vstarcam_wrong_magic_dropped() {
    let mut f = vec![0u8; 0x100];
    f[0..4].copy_from_slice(&0x44480101u32.to_be_bytes());
    assert!(vstarcam::parse(ip("240.0.18.0"), &f).is_empty());
}

#[test]
fn vstarcam_ip_field_parsed_after_nul_truncation() {
    let f = vstarcam_frame(&padded("192.168.1.10"), &padded("SN-001"), &padded("CamX"));
    let devs = vstarcam::parse(ip("240.0.18.0"), &f);
    assert_eq!(devs.len(), 1);
    assert_eq!(devs[0].protocol, "VStarcam");
    assert_eq!(devs[0].version, 1);
    assert_eq!(devs[0].ip, ip("192.168.1.10"));
}

#[test]
fn vstarcam_unparseable_ip_falls_back_to_from() {
    let mut ipf = [0u8; 16];
    ipf[..8].copy_from_slice(b"1.2.3.4x");
    let f = vstarcam_frame(&ipf, &padded("SN-001"), &padded("CamX"));
    let devs = vstarcam::parse(ip("240.0.18.0"), &f);
    assert_eq!(devs.len(), 1);
    assert_eq!(devs[0].ip, ip("240.0.18.0"));
}

#[test]
fn vstarcam_nul_truncated_fields() {
    let f = vstarcam_frame(&padded("10.0.0.9"), &padded("SN1"), &padded("Cam"));
    let devs = vstarcam::parse(ip("240.0.18.0"), &f);
    assert_eq!(devs.len(), 1);
    assert_eq!(devs[0].device_type, "Cam");
    assert_eq!(devs[0].serial, "SN1");
    let f = vstarcam_frame(&padded("10.0.0.9"), &[0u8; 32], &[0u8; 32]);
    let devs = vstarcam::parse(ip("240.0.18.0"), &f);
    assert_eq!(devs[0].device_type, "");
    assert_eq!(devs[0].serial, "");
}

// ---------------------------------------------------------------- Lantronix / Vauban

fn lantronix_frame(byte03: u8, msg: u8, major: u8, minor: u8) -> Vec<u8> {
    let mut d = vec![0u8; 0x1E];
    d[2] = byte03;
    d[3] = msg;
    d[0x0C] = major;
    d[0x0D] = minor;
    d[0x18..].copy_from_slice(&[0x00, 0x11, 0x22, 0x33, 0x44, 0x55]);
    d
}

#[test]
fn lantronix_plain_answer() {
    let devs = lantronix::parse(ip("240.0.23.0"), &lantronix_frame(0x00, 0xF7, 0, 0));
    assert_eq!(devs.len(), 1);
    assert_eq!((devs[0].protocol.as_str(), devs[0].version, devs[0].device_type.as_str()), ("Lantronix", 1, "unknown"));
    assert_eq!(devs[0].serial, "00:11:22:33:44:55");
    assert_eq!(devs[0].mac, "00:11:22:33:44:55");
    assert_eq!(devs[0].ip.to_text(), "240.0.23.0");
}

#[test]
fn lantronix_vauban_minor4() {
    let devs = lantronix::parse(ip("240.0.23.1"), &lantronix_frame(0x15, 0xF7, 2, 4));
    assert_eq!(devs.len(), 1);
    assert_eq!((devs[0].protocol.as_str(), devs[0].device_type.as_str()), ("Vauban", "Verso+ 4"));
}

#[test]
fn lantronix_wrong_length_dropped() {
    let d = lantronix_frame(0x00, 0xF7, 0, 0);
    assert!(lantronix::parse(ip("240.0.23.0"), &d[..0x1D]).is_empty());
}

#[test]
fn lantronix_wrong_message_type_dropped() {
    assert!(lantronix::parse(ip("240.0.23.0"), &lantronix_frame(0x00, 0xF6, 0, 0)).is_empty());
}

#[test]
fn lantronix_vauban_old() {
    let devs = lantronix::parse(ip("240.0.23.0"), &lantronix_frame(0x13, 0xF7, 0, 0));
    assert_eq!((devs[0].protocol.as_str(), devs[0].device_type.as_str()), ("Vauban", "unknown"));
}

#[test]
fn lantronix_vauban_minor2_and_other_names() {
    let from = ip("240.0.23.0");
    assert_eq!(lantronix::parse(from, &lantronix_frame(0x15, 0xF7, 2, 2))[0].device_type, "Verso+ 2");
    assert_eq!(lantronix::parse(from, &lantronix_frame(0x15, 0xF7, 2, 5))[0].device_type, "Verso+");
}

#[test]
fn lantronix_vauban_major_mismatch_falls_through() {
    let devs = lantronix::parse(ip("240.0.23.0"), &lantronix_frame(0x15, 0xF7, 3, 0));
    assert_eq!(devs[0].protocol, "Lantronix");
}

// ---------------------------------------------------------------- MSSQL

fn mssql_packet(first: u8, body: &[u8]) -> Vec<u8> {
    let mut d = vec![first, 0u8, 0x00];
    d.extend_from_slice(body);
    d[1] = (d.len() - 3) as u8;
    d
}

#[test]
fn mssql_basic() {
    let d = mssql_packet(0x05, b"ServerName;SRV1;InstanceName;SQLEXPRESS");
    let devs = mssql::parse(ip("240.0.29.0"), &d);
    assert_eq!(devs.len(), 1);
    assert_eq!(devs[0].protocol, "MSSQL");
    assert_eq!(devs[0].version, 1);
    assert_eq!(devs[0].serial, "SRV1");
    assert_eq!(devs[0].device_type, "SQLEXPRESS");
    assert_eq!(devs[0].ip.to_text(), "240.0.29.0");
}

#[test]
fn mssql_request_byte_silent_drop() {
    let d = mssql_packet(0x02, b"ServerName;SRV1");
    assert!(mssql::parse(ip("240.0.29.0"), &d).is_empty());
}

#[test]
fn mssql_len_mismatch_warn_drop() {
    let mut d = mssql_packet(0x05, b"ServerName;SRV1;InstanceName;X");
    d[1] = (d.len() - 3 + 1) as u8;
    assert!(mssql::parse(ip("240.0.29.0"), &d).is_empty());
}

#[test]
fn mssql_empty_key_stops_at_first_instance() {
    let d = mssql_packet(0x05, b"ServerName;SRV1;;InstanceName;OTHER");
    let devs = mssql::parse(ip("240.0.29.0"), &d);
    assert_eq!(devs.len(), 1);
    assert_eq!(devs[0].serial, "SRV1");
    assert_eq!(devs[0].device_type, "Unknown");
}

#[test]
fn mssql_short_packet_dropped() {
    assert!(mssql::parse(ip("240.0.29.0"), &[0x05, 0x00]).is_empty());
}

// ---------------------------------------------------------------- Foscam

fn foscam_answer(ciphered: bool) -> Vec<u8> {
    let key = *b"_Foscam_";
    let mut d = vec![0u8; 0x57];
    d[0..4].copy_from_slice(&0x4d4f5f49u32.to_be_bytes());
    d[4..6].copy_from_slice(&1u16.to_be_bytes());
    d[6] = u8::from(ciphered);
    if ciphered {
        d[0x07..0x0F].copy_from_slice(&key);
    }
    d[0x0F] = 0x40;
    d[0x17..0x21].copy_from_slice(b"0123456789");
    d[0x24..0x32].copy_from_slice(b"Virtual device");
    d[0x39..0x3D].copy_from_slice(&[0xF0, 0x00, 0x14, 0x00]);
    if ciphered {
        for (i, b) in d[0x17..].iter_mut().enumerate() {
            *b ^= key[i % 8];
        }
    }
    d
}

#[test]
fn foscam_wrong_magic_discarded() {
    let mut d = foscam_answer(false);
    d[0] = 0x00;
    assert!(foscam::parse(&d).is_empty());
}

#[test]
fn foscam_short_packet_discarded() {
    let d = foscam_answer(false);
    assert!(foscam::parse(&d[..0x57 - 1]).is_empty());
}

#[test]
fn foscam_plain_and_ciphered_same_serial() {
    let plain = foscam::parse(&foscam_answer(false));
    let ciphered = foscam::parse(&foscam_answer(true));
    assert_eq!(plain.len(), 1);
    assert_eq!(ciphered.len(), 1);
    assert_eq!(plain[0].protocol, "Foscam");
    assert_eq!(plain[0].version, 1);
    assert_eq!(plain[0].serial, "0123456789");
    assert_eq!(ciphered[0].serial, "0123456789");
    assert_eq!(plain[0].ip, ip("240.0.20.0"));
    assert_eq!(ciphered[0].ip, plain[0].ip);
    assert_eq!(plain[0].device_type, "Type 0");
    assert_eq!(ciphered[0].device_type, "Type 0");
}

// ---------------------------------------------------------------- Eden

#[test]
fn eden_bad_signature_discarded() {
    let pkt = b"FOO|<root><serialNumber>S1</serialNumber><adresseIP>240.0.26.0</adresseIP></root>";
    assert!(eden::parse(ip("240.0.26.0"), pkt).is_empty());
}

#[test]
fn eden_missing_pipe_discarded() {
    assert!(eden::parse(ip("240.0.26.0"), b"BOX").is_empty());
}

#[test]
fn eden_good_signature_reports_optima_box() {
    let pkt = b"BOX|<root><serialNumber>00:11:22:33:44:55</serialNumber><adresseIP>240.0.26.0</adresseIP></root>";
    let devs = eden::parse(ip("240.0.26.0"), pkt);
    assert_eq!(devs.len(), 1);
    assert_eq!(devs[0].protocol, "Eden");
    assert_eq!(devs[0].version, 1);
    assert_eq!(devs[0].ip, ip("240.0.26.0"));
    assert_eq!(devs[0].device_type, "Optima box");
    assert_eq!(devs[0].serial, "00:11:22:33:44:55");
}

#[test]
fn eden_invalid_ip_falls_back_to_from() {
    let pkt = b"BOX|<root><serialNumber>S1</serialNumber><adresseIP>not-an-ip</adresseIP></root>";
    let devs = eden::parse(ip("240.0.26.0"), pkt);
    assert_eq!(devs.len(), 1);
    assert_eq!(devs[0].ip, ip("240.0.26.0"));
    assert_eq!(devs[0].serial, "S1");
}

// ---------------------------------------------------------------- Eaton

#[test]
fn eaton_no_description_no_product_discarded() {
    let xml = b"<FILE><OBJECT name=\"System.Location\">somewhere</OBJECT><OBJECT name=\"UPS.PowerSummary.iModel\">m</OBJECT></FILE>";
    assert!(eaton::parse(ip("240.0.19.0"), xml).is_empty());
}

#[test]
fn eaton_iproduct_fallback_used() {
    let xml = b"<FILE><OBJECT name=\"UPS.PowerSummary.iProduct\">Eaton 5P</OBJECT></FILE>";
    let devs = eaton::parse(ip("240.0.19.0"), xml);
    assert_eq!(devs.len(), 1);
    assert_eq!(devs[0].protocol, "Eaton");
    assert_eq!(devs[0].version, 1);
    assert_eq!(devs[0].ip, ip("240.0.19.0"));
    assert_eq!(devs[0].device_type, "Eaton 5P");
    assert_eq!(devs[0].serial, "Unknown");
}

#[test]
fn eaton_description_takes_precedence() {
    let xml = b"<FILE><OBJECT name=\"System.Description\">Eaton Virtual</OBJECT><OBJECT name=\"UPS.PowerSummary.iProduct\">Eaton</OBJECT><OBJECT name=\"UPS.PowerSummary.iSerialNumber\">123456789</OBJECT></FILE>";
    let devs = eaton::parse(ip("240.0.19.0"), xml);
    assert_eq!(devs.len(), 1);
    assert_eq!(devs[0].device_type, "Eaton Virtual");
    assert_eq!(devs[0].serial, "123456789");
}

// ---------------------------------------------------------------- Hanwha

fn hanwha_answer(addr: &str, mac: &str, device_type: &str) -> Vec<u8> {
    let mut d = vec![0u8; 0x106];
    d[0] = 0x0b;
    d[0x13..0x13 + mac.len()].copy_from_slice(mac.as_bytes());
    d[0x25..0x25 + addr.len()].copy_from_slice(addr.as_bytes());
    d[0x6D..0x6D + device_type.len()].copy_from_slice(device_type.as_bytes());
    d
}

#[test]
fn hanwha_normal_packet_full_tuple() {
    let devs = hanwha::parse(ip("240.0.9.0"), &hanwha_answer("192.168.1.50", "00:11:22:33:44:55", "Hanwha cam"));
    assert_eq!(devs.len(), 1);
    assert_eq!(devs[0].protocol, "Hanwha");
    assert_eq!(devs[0].version, 1);
    assert_eq!(devs[0].ip, ip("192.168.1.50"));
    assert_eq!(devs[0].device_type, "Hanwha cam");
    assert_eq!(devs[0].serial, "00:11:22:33:44:55");
}

#[test]
fn hanwha_invalid_ip_string_falls_back_to_from() {
    let devs = hanwha::parse(ip("240.0.9.0"), &hanwha_answer("999.999.999.999", "00:11:22:33:44:55", "Cam"));
    assert_eq!(devs.len(), 1);
    assert_eq!(devs[0].ip, ip("240.0.9.0"));
    assert_eq!(devs[0].serial, "00:11:22:33:44:55");
}

#[test]
fn hanwha_short_packet_zero_padded() {
    let devs = hanwha::parse(ip("240.0.9.0"), &[0x0b, 0, 0, 0, 0, 0, 0, 0, 0, 0]);
    assert_eq!(devs.len(), 1);
    assert_eq!(devs[0].ip, ip("240.0.9.0"));
    assert_eq!(devs[0].device_type, "");
    assert_eq!(devs[0].serial, "");
}

// ---------------------------------------------------------------- Hikvision

#[test]
fn hikvision_no_probe_match_discarded() {
    let probe = hikvision::build_probe();
    assert!(hikvision::parse(ip("240.0.5.0"), &probe).is_empty());
}

#[test]
fn hikvision_minimal_probe_match_reports_v4() {
    let xml = b"<ProbeMatch><DeviceDescription>DH-IPC</DeviceDescription><DeviceSN>SN12345</DeviceSN><IPv4Address>192.168.1.50</IPv4Address></ProbeMatch>";
    let devs = hikvision::parse(ip("240.0.5.0"), xml);
    assert_eq!(devs.len(), 1);
    assert_eq!(devs[0].protocol, "Hikvision");
    assert_eq!(devs[0].version, 1);
    assert_eq!(devs[0].ip, ip("192.168.1.50"));
    assert_eq!(devs[0].device_type, "DH-IPC");
    assert_eq!(devs[0].serial, "SN12345");
}

#[test]
fn hikvision_ipv6_branch_reports_two_entries() {
    let xml = b"<ProbeMatch><DeviceDescription>DH-IPC</DeviceDescription><DeviceSN>SN12345</DeviceSN><IPv4Address>192.168.1.50</IPv4Address><IPv6Address>fe80::1</IPv6Address></ProbeMatch>";
    let devs = hikvision::parse(ip("240.0.5.0"), xml);
    assert_eq!(devs.len(), 2);
    assert_eq!(devs[0].ip, ip("192.168.1.50"));
    assert_eq!(devs[1].ip, ip("fe80::1"));
    assert_eq!(devs[1].version, 1);
}

// ---------------------------------------------------------------- Sony

fn sony_frame(lines: &[&str]) -> Vec<u8> {
    let mut d = vec![SONY_START];
    for l in lines {
        d.extend_from_slice(l.as_bytes());
        d.push(SONY_EOS);
    }
    d.push(SONY_END);
    d
}

#[test]
fn sony_full() {
    let f = sony_frame(&["MAC:aa-bb-cc-dd-ee-ff", "MODEL:Virtual", "SERIAL:123456789", "IPADR:240.0.11.0"]);
    let devs = sony::parse(ip("240.0.11.0"), &f);
    assert_eq!(devs.len(), 1);
    assert_eq!(devs[0].protocol, "Sony");
    assert_eq!(devs[0].version, 1);
    assert_eq!(devs[0].ip, ip("240.0.11.0"));
    assert_eq!(devs[0].device_type, "Virtual");
    assert_eq!(devs[0].serial, "123456789");
}

#[test]
fn sony_missing_ipadr_not_reported() {
    let f = sony_frame(&["MODEL:Virtual", "SERIAL:123456789"]);
    assert!(sony::parse(ip("240.0.11.0"), &f).is_empty());
}

#[test]
fn sony_serial_falls_back_to_mac() {
    let f = sony_frame(&["MAC:aa-bb-cc-dd-ee-ff", "MODEL:Virtual", "IPADR:192.168.0.9"]);
    let devs = sony::parse(ip("240.0.11.0"), &f);
    assert_eq!(devs.len(), 1);
    assert_eq!(devs[0].serial, "aa-bb-cc-dd-ee-ff");
}

#[test]
fn sony_serial_unknown_misspelling() {
    let f = sony_frame(&["MODEL:Virtual", "IPADR:192.168.0.9"]);
    let devs = sony::parse(ip("240.0.11.0"), &f);
    assert_eq!(devs.len(), 1);
    assert_eq!(devs[0].serial, "unkonwn");
}

#[test]
fn sony_bad_markers_discarded() {
    let frame = sony_frame(&["MODEL:V", "IPADR:1.2.3.4"]);
    let mut bad_start = frame.clone();
    bad_start[0] = 0x00;
    assert!(sony::parse(ip("240.0.11.0"), &bad_start).is_empty());
    let mut bad_end = frame;
    bad_end.pop();
    bad_end.push(0x00);
    assert!(sony::parse(ip("240.0.11.0"), &bad_end).is_empty());
}

// ---------------------------------------------------------------- Ubiquiti

fn ubt_frame(body: &[u8], magic: u16) -> Vec<u8> {
    let mut d = vec![0u8; 4];
    d[0..2].copy_from_slice(&magic.to_be_bytes());
    d[2..4].copy_from_slice(&(body.len() as u16).to_be_bytes());
    d.extend_from_slice(body);
    d
}

fn tlv(ty: u16, value: &[u8]) -> Vec<u8> {
    let mut v = ty.to_le_bytes().to_vec();
    v.push(value.len() as u8);
    v.extend_from_slice(value);
    v
}

#[test]
fn ubiquiti_mac_and_ip() {
    let f = ubt_frame(&tlv(0x0001, &[0xAA, 0xBB, 0xCC, 0xDD, 0xEE, 0xFF]), 0x0206);
    let devs = ubiquiti::parse(ip("240.0.12.0"), &f);
    assert_eq!(devs.len(), 1);
    assert_eq!(devs[0].protocol, "Ubiquiti");
    assert_eq!(devs[0].version, 1);
    assert_eq!(devs[0].serial, "AA:BB:CC:DD:EE:FF");
    assert_eq!(devs[0].ip, ip("240.0.12.0"));
    assert_eq!(devs[0].device_type, "unknown");
}

#[test]
fn ubiquiti_zero_type_drops_whole() {
    let mut body = tlv(0x0001, &[0; 6]);
    body.extend(tlv(0x0000, &[]));
    assert!(ubiquiti::parse(ip("240.0.12.0"), &ubt_frame(&body, 0x0206)).is_empty());
}

#[test]
fn ubiquiti_bad_packetsize_dropped() {
    let mut f = ubt_frame(&tlv(0x0001, &[0; 6]), 0x0206);
    f[2] = f[2].wrapping_add(1);
    assert!(ubiquiti::parse(ip("240.0.12.0"), &f).is_empty());
}

#[test]
fn ubiquiti_bad_magic_warn_only() {
    let f = ubt_frame(&tlv(0x0001, &[0; 6]), 0x0205);
    assert_eq!(ubiquiti::parse(ip("240.0.12.0"), &f).len(), 1);
}

#[test]
fn ubiquiti_mac_ipv4_and_models() {
    let mut body = tlv(0x0002, &[0xAA, 0xBB, 0xCC, 0xDD, 0xEE, 0xFF, 192, 168, 1, 77]);
    body.extend(tlv(0x0015, b"UAP"));
    let devs = ubiquiti::parse(ip("240.0.12.0"), &ubt_frame(&body, 0x0206));
    assert_eq!(devs.len(), 1);
    assert_eq!(devs[0].ip, ip("192.168.1.77"));
    assert_eq!(devs[0].serial, "AA:BB:CC:DD:EE:FF");
    assert_eq!(devs[0].device_type, "UAP");
}

#[test]
fn ubiquiti_mac_from_mac_ipv4_only() {
    let body = tlv(0x0002, &[0, 0, 0, 0, 0, 0, 10, 0, 0, 1]);
    let devs = ubiquiti::parse(ip("240.0.12.0"), &ubt_frame(&body, 0x0206));
    assert_eq!(devs.len(), 1);
    assert_eq!(devs[0].serial, "00:00:00:00:00:00");
    assert_eq!(devs[0].ip, ip("10.0.0.1"));
}

// ---------------------------------------------------------------- Vivotek

fn vi_frame(tlv: &[u8]) -> Vec<u8> {
    let mut d = vec![1u8];
    d.extend_from_slice(&0x4A5D8F1Cu32.to_be_bytes());
    d.extend_from_slice(tlv);
    d
}

#[test]
fn vivotek_full() {
    let mut tlv = vec![0x02, 6, 0x00, 0x11, 0x22, 0x33, 0x44, 0x55];
    tlv.extend_from_slice(&[0x03, 4, 192, 168, 1, 60]);
    tlv.extend_from_slice(&[0x09, 4]);
    tlv.extend_from_slice(b"V410");
    let devs = vivotek::parse(&vi_frame(&tlv));
    assert_eq!(devs.len(), 1);
    assert_eq!(devs[0].protocol, "Vivotek");
    assert_eq!(devs[0].version, 1);
    assert_eq!(devs[0].ip, ip("192.168.1.60"));
    assert_eq!(devs[0].device_type, "V410");
    assert_eq!(devs[0].serial, "00:11:22:33:44:55");
}

#[test]
fn vivotek_null_type_drops() {
    let tlv = [0x01, 2, b'A', b'B', 0x00u8, 2, b'C', b'D'];
    assert!(vivotek::parse(&vi_frame(&tlv)).is_empty());
}

#[test]
fn vivotek_type04_uses_size_byte() {
    let tlv = vec![0x04, 0x07, 0x03, 4, 10, 0, 0, 1];
    let devs = vivotek::parse(&vi_frame(&tlv));
    assert_eq!(devs.len(), 1);
    assert_eq!(devs[0].ip, ip("10.0.0.1"));
}

#[test]
fn vivotek_no_ip_not_reported() {
    let mut tlv = vec![0x02, 6, 0x00, 0x11, 0x22, 0x33, 0x44, 0x55, 0x09, 4];
    tlv.extend_from_slice(b"V410");
    assert!(vivotek::parse(&vi_frame(&tlv)).is_empty());
}

#[test]
fn vivotek_short_len_dropped() {
    assert!(vivotek::parse(&[1, 0x4A, 0x5D, 0x8F]).is_empty());
}

#[test]
fn vivotek_ip_bad_length_dropped() {
    let tlv = vec![0x03, 5, 1, 2, 3, 4, 5];
    assert!(vivotek::parse(&vi_frame(&tlv)).is_empty());
}

#[test]
fn vivotek_mac_short_dropped() {
    let tlv = vec![0x02, 5, 0x00, 0x11, 0x22, 0x33, 0x44, 0x03, 4, 10, 0, 0, 1];
    assert!(vivotek::parse(&vi_frame(&tlv)).is_empty());
}

// ---------------------------------------------------------------- Panasonic

fn panasonic_frame(mac: [u8; 6], tlv: &[(u16, &[u8])]) -> Vec<u8> {
    let mut d = vec![0u8; 53];
    d[0..4].copy_from_slice(&0x0001_0000u32.to_be_bytes());
    d[6..12].copy_from_slice(&mac);
    for (k, v) in tlv {
        d.extend_from_slice(&k.to_be_bytes());
        d.extend_from_slice(&(v.len() as u16).to_be_bytes());
        d.extend_from_slice(v);
    }
    d.extend_from_slice(&[0u8; 4]);
    d
}

#[test]
fn panasonic_full() {
    let f = panasonic_frame([0x00, 0x11, 0x22, 0x33, 0x44, 0x55], &[(0x0020, &[192, 168, 1, 50]), (0x00A7, b"KX-A")]);
    let devs = panasonic::parse(&f);
    assert_eq!(devs.len(), 1);
    assert_eq!(devs[0].protocol, "Panasonic");
    assert_eq!(devs[0].version, 1);
    assert_eq!(devs[0].ip, ip("192.168.1.50"));
    assert_eq!(devs[0].device_type, "KX-A");
    assert_eq!(devs[0].mac, "00:11:22:33:44:55");
    assert_eq!(devs[0].serial, "00:11:22:33:44:55");
}

#[test]
fn panasonic_no_ipv4_not_reported() {
    let f = panasonic_frame([0; 6], &[(0x00A7, b"KX-A")]);
    assert!(panasonic::parse(&f).is_empty());
}

#[test]
fn panasonic_header_only_dropped() {
    assert!(panasonic::parse(&[0u8; 52]).is_empty());
}

#[test]
fn panasonic_shortname_fallback() {
    let f = panasonic_frame([0; 6], &[(0x0020, &[10, 0, 0, 1]), (0x00A8, b"KX-S")]);
    let devs = panasonic::parse(&f);
    assert_eq!(devs.len(), 1);
    assert_eq!(devs[0].device_type, "KX-S");
    assert_eq!(devs[0].ip, ip("10.0.0.1"));
}

#[test]
fn panasonic_tlv_overflow_returns_parsed() {
    let mut f = panasonic_frame([0; 6], &[(0x0020, &[192, 168, 1, 50]), (0x00A7, b"KX-A")]);
    f.extend_from_slice(&0x0021u16.to_be_bytes());
    f.extend_from_slice(&0x00FFu16.to_be_bytes());
    f.push(0);
    let devs = panasonic::parse(&f);
    assert_eq!(devs.len(), 1);
    assert_eq!(devs[0].device_type, "KX-A");
}

#[test]
fn panasonic_ipv6_sixteen_bytes() {
    let f = panasonic_frame([0; 6], &[(0x0020, &[0xfe, 0x80, 0, 0, 0, 0, 0, 0, 0, 0, 0, 0, 0, 0, 0, 1]), (0x00A7, b"KX-A")]);
    let devs = panasonic::parse(&f);
    assert_eq!(devs.len(), 1);
    assert_eq!(devs[0].ip, ip("fe80::1"));
    assert_eq!(devs[0].device_type, "KX-A");
}

#[test]
fn panasonic_bad_ip_length_not_reported() {
    let f = panasonic_frame([0; 6], &[(0x0020, &[1, 2, 3, 4, 5, 6, 7, 8]), (0x00A7, b"KX-A")]);
    assert!(panasonic::parse(&f).is_empty());
}

// ---------------------------------------------------------------- CyberPower

fn cyberpower_packet(magic: u8, key: u8, device_name: &str) -> Vec<u8> {
    let mut plain = vec![0u8];
    plain.extend_from_slice(&[0, 0x11, 0x22, 0x33, 0x44, 0x55]);
    plain.push(0);
    plain.extend_from_slice(&0xF0001C00u32.to_be_bytes());
    plain.extend_from_slice(&0xFFFFFFFFu32.to_be_bytes());
    plain.extend_from_slice(&0xF0002000u32.to_be_bytes());
    plain.extend_from_slice(&1u32.to_be_bytes());
    for s in [device_name, "loc", "user"] {
        plain.push(s.len() as u8);
        plain.extend_from_slice(s.as_bytes());
    }
    plain.push(0);
    plain.extend_from_slice(&7u32.to_be_bytes());
    let mut out = vec![magic, key, 4];
    out.extend_from_slice(b"hash");
    out.extend_from_slice(&1u32.to_be_bytes());
    out.extend_from_slice(&2u32.to_be_bytes());
    for b in plain {
        out.push(b ^ key);
    }
    out
}

#[test]
fn cyberpower_full_packet_reported() {
    let devs = cyberpower::parse(&cyberpower_packet(0x51, 0x5A, "PDU1"));
    assert_eq!(devs.len(), 1);
    assert_eq!(devs[0].protocol, "CyberPower");
    assert_eq!(devs[0].version, 1);
    assert_eq!(devs[0].ip, ip("240.0.28.0"));
    assert_eq!(devs[0].device_type, "PDU1");
    assert_eq!(devs[0].mac, "00:11:22:33:44:55");
    assert_eq!(devs[0].serial, "001122334455");
}

#[test]
fn cyberpower_wrong_magic_still_reported() {
    let devs = cyberpower::parse(&cyberpower_packet(0x00, 0x00, "UPS"));
    assert!(!devs.is_empty());
    assert_eq!(devs[0].device_type, "UPS");
}

#[test]
fn cyberpower_truncated_xor_region_empty() {
    let mut pkt = cyberpower_packet(0x51, 0x00, "UPS");
    pkt.truncate(1 + 1 + 1 + 4 + 4 + 4 + 4);
    assert!(cyberpower::parse(&pkt).is_empty());
}

// ---------------------------------------------------------------- NiceVision

#[test]
fn nicevision_ip_quirk_reverses_octets() {
    let mut d = vec![0u8; 0x5A];
    d[0x0A..0x10].copy_from_slice(&[0, 0x11, 0x22, 0x33, 0x44, 0x55]);
    d[0x10..0x14].copy_from_slice(&[0xC0, 0xA8, 0x01, 0x05]);
    d[0x4A..0x50].copy_from_slice(b"NV-900");
    let devs = nicevision::parse(&d);
    assert_eq!(devs.len(), 1);
    assert_eq!(devs[0].protocol, "NiceVision");
    assert_eq!(devs[0].version, 1);
    assert_eq!(devs[0].serial, "00:11:22:33:44:55");
    assert_eq!(devs[0].ip.to_text(), "5.1.168.192");
    assert_eq!(devs[0].device_type, "NV-900");
}

#[test]
fn nicevision_short_packet_skipped() {
    assert!(nicevision::parse(&[0u8; 0x5A - 1]).is_empty());
}

#[test]
fn nicevision_probe_counter_advances() {
    let mut n = nicevision::NiceVision::new();
    let p = n.next_probe();
    assert_eq!(p, nicevision::build_probe(1));
    assert_eq!(&p[0..4], b"NICE");
}

// ---------------------------------------------------------------- Bosch

fn bosch_binary(magic_wire: [u8; 4], mac: [u8; 6], ip_wire: [u8; 4]) -> Vec<u8> {
    let mut d = vec![0u8; 32];
    d[0x00..0x04].copy_from_slice(&magic_wire);
    d[0x08..0x0E].copy_from_slice(&mac);
    d[0x10..0x14].copy_from_slice(&ip_wire);
    d
}

#[test]
fn bosch_binary_packet_reports_v1() {
    let devs = bosch::parse(
        ip("240.0.7.0"),
        &bosch_binary([0x99, 0x39, 0xA4, 0x27], [0, 0x11, 0x22, 0x33, 0x44, 0x55], [0x64, 0x01, 0xA8, 0xC0]),
    );
    assert_eq!(devs.len(), 1);
    assert_eq!(devs[0].protocol, "Bosch");
    assert_eq!(devs[0].version, 1);
    assert_eq!(devs[0].ip, ip("192.168.1.100"));
    assert_eq!(devs[0].mac, "00:11:22:33:44:55");
    assert_eq!(devs[0].device_type, "Bosch");
    assert_eq!(devs[0].serial, "00:11:22:33:44:55");
}

#[test]
fn bosch_binary_wrong_magic_discarded() {
    assert!(bosch::parse(ip("240.0.7.0"), &bosch_binary([0, 0, 0, 0], [0; 6], [0; 4])).is_empty());
}

#[test]
fn bosch_xml_packet_reports_v2() {
    let xml = b"<?xml version=\"1.0\"?><root><friendlyName>Cam (XML)</friendlyName><serialNumber>SN-99</serialNumber><physAddress>aa-bb-cc-dd-ee-ff</physAddress><unitIPAddress>192.168.9.9</unitIPAddress></root>";
    let devs = bosch::parse(ip("240.0.7.0"), xml);
    assert_eq!(devs.len(), 1);
    assert_eq!(devs[0].protocol, "Bosch");
    assert_eq!(devs[0].version, 2);
    assert_eq!(devs[0].ip, ip("192.168.9.9"));
    assert_eq!(devs[0].mac, "AA:BB:CC:DD:EE:FF");
    assert_eq!(devs[0].device_type, "Cam (XML)");
    assert_eq!(devs[0].serial, "SN-99");
}

#[test]
fn bosch_probe_for_given_time() {
    let p = bosch::probe_at(13, 5, 59, 1234);
    assert_eq!(p, vec![0x99, 0x39, 0xA4, 0x27, 13, 5, 59, 123, 0xFF, 0x00, 0x06, 0xDE]);
}

#[test]
fn bosch_probe_for_unix_time() {
    // 1_700_000_000 s is 2023-11-14 22:13:20 UTC.
    let p = bosch::probe_for_time(1_700_000_000, 123_456_789).unwrap();
    assert_eq!(p, vec![0x99, 0x39, 0xA4, 0x27, 22, 13, 20, 12, 0xFF, 0x00, 0x06, 0xDE]);
    let p = bosch::probe_for_time(86_399, 999_000_000).unwrap();
    assert_eq!(p, vec![0x99, 0x39, 0xA4, 0x27, 23, 59, 59, 99, 0xFF, 0x00, 0x06, 0xDE]);
    assert!(bosch::probe_for_time(u64::MAX, 0).is_none());
    // The last second of year 262142 still has a UTC date; the next one has none.
    let p = bosch::probe_for_time(8_210_266_876_799, 0).unwrap();
    assert_eq!(&p[4..8], &[23, 59, 59, 0]);
    assert!(bosch::probe_for_time(8_210_266_876_800, 0).is_none());
    let p = bosch::probe_for_time(0, 0).unwrap();
    assert_eq!(&p[4..8], &[0, 0, 0, 0]);
    let now = bosch::build_probe().unwrap();
    assert_eq!(now.len(), 12);
    assert_eq!(&now[0..4], &[0x99, 0x39, 0xA4, 0x27]);
}

// ---------------------------------------------------------------- Advantech

fn advantech_frame(message_type: u8, mac: [u8; 6], pad: usize, tail: &[u8]) -> Vec<u8> {
    let mut d = vec![0u8; 0x38 + pad];
    d[0x0D..0x13].copy_from_slice(&mac);
    d[0x35] = message_type;
    d.extend_from_slice(tail);
    d
}

#[test]
fn advantech_short_0x69_dropped() {
    let f = advantech_frame(0x20, [0; 6], 0x31, &[]);
    assert_eq!(f.len(), 0x69);
    assert!(advantech::parse(ip("240.0.25.0"), &f).is_empty());
}

#[test]
fn advantech_product_type() {
    let f = advantech_frame(0x20, [0x00, 0x11, 0x22, 0x33, 0x44, 0x55], 0x32, b"ABCD");
    assert_eq!(f.len(), 0x6A + 4);
    let devs = advantech::parse(ip("240.0.25.0"), &f);
    assert_eq!(devs.len(), 1);
    assert_eq!(devs[0].protocol, "Advantech");
    assert_eq!(devs[0].version, 1);
    assert_eq!(devs[0].ip, ip("240.0.25.0"));
    assert_eq!(devs[0].device_type, "ABCD");
    assert_eq!(devs[0].serial, "00:11:22:33:44:55");
}

#[test]
fn advantech_non_product_type_still_reported() {
    let f = advantech_frame(0x10, [0x00, 0x11, 0x22, 0x33, 0x44, 0x55], 0x32, &[]);
    assert_eq!(f.len(), 0x6A);
    let devs = advantech::parse(ip("240.0.25.0"), &f);
    assert_eq!(devs.len(), 1);
    assert_eq!(devs[0].device_type, "Unknown");
    assert_eq!(devs[0].serial, "00:11:22:33:44:55");
}

// ---------------------------------------------------------------- Dahua (JSON)

fn dahua2_frame(body: &str) -> Vec<u8> {
    let mut f = dahua2::header(body.len() as u32);
    f.extend_from_slice(body.as_bytes());
    f
}

#[test]
fn dahua2_header_layout() {
    let h = dahua2::header(7);
    assert_eq!(h.len(), 0x20);
    assert_eq!(&h[0..8], &[0x20, 0, 0, 0, b'D', b'H', b'I', b'P']);
    assert_eq!(&h[0x10..0x14], &7u32.to_le_bytes());
    assert_eq!(&h[0x18..0x1C], &7u32.to_le_bytes());
}

#[test]
fn dahua2_wrong_method_discarded() {
    let body = "{\"method\":\"client.otherThing\",\"params\":{}}";
    assert!(dahua2::parse(ip("240.0.4.0"), &dahua2_frame(body)).is_empty());
}

#[test]
fn dahua2_ipv6_slash_truncation_quirk() {
    let body = "{\"method\":\"client.notifyDevInfo\",\"IPv6Address\":{\"IPAddress\":\"fe80::abcd/16\"}}";
    let devs = dahua2::parse(ip("240.0.4.0"), &dahua2_frame(body));
    assert_eq!(devs.len(), 2);
    assert_eq!(devs[1].ip, ip("fe80::abc"));
    assert_eq!(devs[1].version, 2);
}

#[test]
fn dahua2_normal_notify_reports_full_tuple() {
    let body = "{\"mac\":\"aa:bb:cc:dd:ee:ff\",\"method\":\"client.notifyDevInfo\",\"params\":{\"deviceInfo\":{\"DeviceType\":\"Virtual (JSON)\",\"IPv4Address\":{\"DefaultGateway\":\"240.0.0.1\",\"IPAddress\":\"240.0.4.0\",\"SubnetMask\":\"255.0.0.0\"},\"SerialNo\":\"123456789\"}}}";
    let devs = dahua2::parse(ip("240.0.4.0"), &dahua2_frame(body));
    assert_eq!(devs.len(), 1);
    assert_eq!(devs[0].protocol, "Dahua");
    assert_eq!(devs[0].version, 2);
    assert_eq!(devs[0].ip, ip("240.0.4.0"));
    assert_eq!(devs[0].device_type, "Virtual (JSON)");
    assert_eq!(devs[0].serial, "123456789");
}
