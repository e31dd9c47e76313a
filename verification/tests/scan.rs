use universal_scanner::arp::frame;
use universal_scanner::catalog::proto_meta;
use universal_scanner::cli::{OutputFormat, ScanArgs};
use universal_scanner::config::{Config, Error};
use universal_scanner::devices::{Device, DeviceTable};
use universal_scanner::ip::IpAddr;
use universal_scanner::output::{batch_lines, header, render_row};
use universal_scanner::ports::PortProvider;
use universal_scanner::protocols::engines::{listed_engines, Engine};
use universal_scanner::protocols::registry;
use universal_scanner::scan_config::{effective_config, PartialConfig};
use universal_scanner::scan_loop::{scan_opts, scan_step, ScanAction, ScanEvent, ScanOpts};
use universal_scanner::scanner::Scanner;
use universal_scanner::selftest::{replay, replays, target_of, Replay, ReplayTarget, REPLAY_PORT};

fn dev(protocol: &str, version: u32, addr: &str, ty: &str, serial: &str) -> Device {
    Device::new(
        protocol.to_string(),
        version,
        IpAddr::parse(addr).unwrap(),
        String::new(),
        ty.to_string(),
        serial.to_string(),
    )
}

fn names(list: &[&str]) -> Vec<String> {
    list.iter().map(|s| s.to_string()).collect()
}

// ---------------------------------------------------------------- registry

const EXPECTED_IDS: [u16; 27] = [
    1, 2, 3, 4, 5, 6, 7, 8, 9, 10, 11, 12, 13, 14, 15, 16, 17, 18, 19, 20, 23, 24, 25, 26, 28, 29, 30,
];
const EXPECTED_NAMES: [&str; 27] = [
    "SSDP",
    "WSDiscovery",
    "Dahua",
    "Dahua",
    "Hikvision",
    "Axis",
    "Bosch",
    "Google",
    "Hanwha",
    "Vivotek",
    "Sony",
    "Ubiquiti",
    "360Vision",
    "NiceVision",
    "Panasonic",
    "Arecont",
    "GigEVision",
    "VStarcam",
    "Eaton",
    "Foscam",
    "Lantronix",
    "Microchip",
    "Advantech",
    "Eden",
    "CyberPower",
    "MSSQL",
    "ARP",
];

#[test]
fn registry_complete() {
    let reg = registry();
    let ids: Vec<u16> = reg.iter().map(|(id, _)| *id).collect();
    let current_ids: Vec<u16> = EXPECTED_IDS.iter().copied().filter(|id| *id != 30).collect();
    assert_eq!(ids, current_ids);
    let got: Vec<&str> = reg.iter().map(|(_, e)| e.name()).collect();
    let current_names: Vec<&str> = EXPECTED_IDS
        .iter()
        .zip(EXPECTED_NAMES.iter())
        .filter(|(id, _)| **id != 30)
        .map(|(_, n)| *n)
        .collect();
    assert_eq!(got, current_names);
}

#[test]
fn engine_ports_and_colors() {
    assert_eq!(Engine::Ssdp.used_ports(), vec![1900]);
    assert!(Engine::Axis.used_ports().is_empty());
    assert_eq!(Engine::Ssdp.color(), 0x006400);
    assert_eq!(Engine::Lantronix.color(), 0xFFA500);
}

// ---------------------------------------------------------------- scanner

#[test]
fn filter_case_insensitive_and_dahua_dual() {
    let s = Scanner::new(Config::default(), Some(names(&["Dahua"]).as_slice())).unwrap();
    assert_eq!(s.len(), 2);
    assert_eq!(s.protocol_names(), vec!["Dahua".to_string(), "Dahua".to_string()]);
    let s = Scanner::new(Config::default(), Some(names(&["ssdp", "LANTRONIX"]).as_slice())).unwrap();
    assert_eq!(s.len(), 2);
    let r = Scanner::new(Config::default(), Some(names(&["nope"]).as_slice()));
    let err = match r {
        Err(Error::Config(m)) => m,
        _ => panic!("expected Config error for unknown protocol"),
    };
    assert!(err.contains("unknown protocol: nope"), "msg: {err}");
    assert!(err.contains("ssdp"), "available list missing ssdp: {err}");
    assert!(err.contains("dahua"), "available list missing dahua: {err}");
}

#[test]
fn no_filter_gives_all_27() {
    let s = Scanner::new(Config::default(), None).unwrap();
    assert_eq!(s.len(), 27);
    assert!(!s.is_empty());
    assert!(s.needs_mdns());
    let ids: Vec<u16> = s.entries().iter().map(|(id, _)| *id).collect();
    assert_eq!(ids, EXPECTED_IDS.to_vec());
    let names: Vec<String> = s.protocol_names();
    let expected: Vec<String> = EXPECTED_NAMES.iter().map(|n| n.to_string()).collect();
    assert_eq!(names, expected);
}

#[test]
fn arp_selectable_by_name() {
    let s = Scanner::new(Config::default(), Some(names(&["arp"]).as_slice())).unwrap();
    assert_eq!(s.len(), 1);
    assert_eq!(s.entries()[0], (30, Engine::Arp));
    assert!(!s.needs_mdns());
}

#[test]
fn listed_engines_add_tvt() {
    let all = listed_engines();
    assert_eq!(all.len(), 28);
    assert_eq!(all[26], (30, Engine::Arp));
    assert_eq!(all[27], (31, Engine::Tvt));
    assert_eq!(Engine::Arp.name(), "ARP");
    assert_eq!(Engine::Arp.color(), 0x0000FF);
    assert!(Engine::Arp.used_ports().is_empty());
    assert_eq!(Engine::Tvt.name(), "TVT");
    assert_eq!(Engine::Tvt.used_ports(), vec![23456]);
}

#[test]
fn unknown_protocol_message_exact() {
    let r = Scanner::new(Config::default(), Some(names(&["SSDP", "Foo"]).as_slice()));
    let err = match r {
        Err(Error::Config(m)) => m,
        _ => panic!("expected an error"),
    };
    assert_eq!(
        err,
        "unknown protocol: foo; available: ssdp, wsdiscovery, dahua, dahua, hikvision, axis, bosch, google, \
         hanwha, vivotek, sony, ubiquiti, 360vision, nicevision, panasonic, arecont, gigevision, vstarcam, \
         eaton, foscam, lantronix, microchip, advantech, eden, cyberpower, mssql, arp"
    );
}

#[test]
fn filter_keeps_registry_order() {
    let s = Scanner::new(Config::default(), Some(names(&["mssql", "SSDP"]).as_slice())).unwrap();
    assert_eq!(s.protocol_names(), vec!["SSDP".to_string(), "MSSQL".to_string()]);
    assert!(!s.needs_mdns());
    let ids: Vec<u16> = s.entries().iter().map(|(id, _)| *id).collect();
    assert_eq!(ids, vec![1, 29]);
}

#[test]
fn empty_filter_selects_nothing() {
    let none: Vec<String> = Vec::new();
    let s = Scanner::new(Config::default(), Some(none.as_slice())).unwrap();
    assert!(s.is_empty());
}

#[test]
fn reserve_ports_of_selected_engines() {
    let s = Scanner::new(Config::default(), Some(names(&["ssdp", "axis"]).as_slice())).unwrap();
    let mut pp = PortProvider::with_used(&[]);
    s.reserve_ports(&mut pp);
    for _ in 0..200 {
        if let Some(p) = pp.free_port(|_| true) {
            assert_ne!(p, 1900);
        }
    }
}

// ---------------------------------------------------------------- configuration

fn file_with_link_local(v: bool) -> PartialConfig {
    let mut p = PartialConfig::default();
    p.force_link_local = Some(v);
    p
}

#[test]
fn config_priority_cli_over_toml_over_default() {
    let f = file_with_link_local(false);
    let c = effective_config(Some(f), &ScanArgs::default()).unwrap();
    assert!(!c.force_link_local, "TOML must override default");
    let mut args = ScanArgs::default();
    args.no_force_link_local = true;
    let c = effective_config(Some(f), &args).unwrap();
    assert!(!c.force_link_local);
    let c = effective_config(None, &ScanArgs::default()).unwrap();
    assert!(c.force_link_local, "default must apply");
}

#[test]
fn config_cli_overrides_toml() {
    let f = file_with_link_local(false);
    let mut args = ScanArgs::default();
    args.force_link_local = true;
    let c = effective_config(Some(f), &args).unwrap();
    assert!(c.force_link_local, "CLI must override TOML");
}

#[test]
fn conflicting_flag_pair_errors() {
    let mut args = ScanArgs::default();
    args.enable_ipv4 = true;
    args.disable_ipv4 = true;
    match effective_config(None, &args) {
        Err(Error::Config(m)) => assert_eq!(m, "conflicting flags: --enable-ipv4 and --disable-ipv4"),
        _ => panic!("both --enable-ipv4 and --disable-ipv4 must error"),
    }
}

#[test]
fn arp_pair_applied() {
    let mut args = ScanArgs::default();
    args.no_arp = true;
    let c = effective_config(None, &args).unwrap();
    assert!(!c.arp_enabled);
}

#[test]
fn empty_file_keeps_defaults() {
    let c = effective_config(Some(PartialConfig::default()), &ScanArgs::default()).unwrap();
    assert!(c == Config::default());
}

// ---------------------------------------------------------------- output

#[test]
fn csv_header_and_row() {
    assert_eq!(header(OutputFormat::Csv).unwrap(), "protocol,version,ip,type,serial");
    let d = dev("SSDP", 0, "1.2.3.4", "X", "SN");
    assert_eq!(render_row(&d, OutputFormat::Csv, false, false), "\"SSDP\",\"0\",\"1.2.3.4\",\"X\",\"SN\"");
    let d = dev("SSDP", 0, "1.2.3.4", "Cam, \"pro\"", "SN,9");
    assert_eq!(
        render_row(&d, OutputFormat::Csv, false, false),
        "\"SSDP\",\"0\",\"1.2.3.4\",\"Cam, \"\"pro\"\"\",\"SN,9\""
    );
}

#[test]
fn tsv_header_and_row() {
    assert_eq!(header(OutputFormat::Tsv).unwrap(), "protocol\tversion\tip\ttype\tserial");
    let d = dev("SSDP", 0, "1.2.3.4", "X", "SN");
    assert_eq!(render_row(&d, OutputFormat::Tsv, false, false), "SSDP\t0\t1.2.3.4\tX\tSN");
}

#[test]
fn json_lines_fields() {
    let d = dev("SSDP", 2, "1.2.3.4", "X", "SN");
    let line = render_row(&d, OutputFormat::Json, false, false);
    let v: serde_json::Value = serde_json::from_str(&line).unwrap();
    assert_eq!(v["protocol"], "SSDP");
    assert_eq!(v["version"], 2);
    assert_eq!(v["ip"], "1.2.3.4");
    assert_eq!(v["type"], "X");
    assert_eq!(v["serial"], "SN");
}

#[test]
fn json_escapes_quotes_and_controls() {
    let d = dev("SSDP", 2, "1.2.3.4", "a\"b\\c\n", "SN");
    let line = render_row(&d, OutputFormat::Json, false, false);
    let v: serde_json::Value = serde_json::from_str(&line).unwrap();
    assert_eq!(v["type"], "a\"b\\c\n");
    assert!(line.contains("\"type\":\"a\\\"b\\\\c\\n\""));
}

#[test]
fn table_hides_version_by_default() {
    let d = dev("SSDP", 7, "1.2.3.4", "X", "SN");
    let hidden = render_row(&d, OutputFormat::Table, false, false);
    assert!(!hidden.contains('7'), "version must be hidden: {hidden}");
    let shown = render_row(&d, OutputFormat::Table, true, false);
    assert!(shown.contains('7'), "version must be shown: {shown}");
}

#[test]
fn no_color_strips_ansi() {
    let d = dev("SSDP", 0, "1.2.3.4", "X", "SN");
    let colored = render_row(&d, OutputFormat::Table, false, true);
    assert!(colored.contains("\x1b["), "colored output must contain ANSI: {colored:?}");
    assert!(colored.starts_with("\x1b[38;2;0;100;0mSSDP\x1b[39m"));
    let plain = render_row(&d, OutputFormat::Table, false, false);
    assert!(!plain.contains("\x1b["), "plain output must not contain ANSI: {plain:?}");
}

#[test]
fn batch_orders_by_discovery() {
    let mut t = DeviceTable::new(false);
    t.add(dev("SSDP", 0, "1.2.3.4", "X", "A"), true, false);
    t.add(dev("Lantronix", 0, "5.6.7.8", "Y", "B"), true, false);
    let lines = batch_lines(&t, OutputFormat::Csv, false, false);
    assert_eq!(lines.len(), 3);
    assert_eq!(lines[0], "protocol,version,ip,type,serial");
    assert_eq!(lines[1], "\"SSDP\",\"0\",\"1.2.3.4\",\"X\",\"A\"");
    assert_eq!(lines[2], "\"Lantronix\",\"0\",\"5.6.7.8\",\"Y\",\"B\"");
}

// ---------------------------------------------------------------- replays

#[test]
fn replays_list_and_sources() {
    let all = replays();
    assert_eq!(all.len(), 31);
    assert_eq!(all[0].engine_name, "SSDP");
    assert_eq!(all[0].fixture, "SSDP.selftest");
    assert_eq!(all[0].source, (IpAddr::V4(240, 0, 1, 0), REPLAY_PORT));
    let vauban = all.iter().find(|r| r.fixture == "Vauban.selftest").unwrap();
    assert_eq!(vauban.source, (IpAddr::V4(240, 0, 23, 1), 1024));
    let axis = all.iter().find(|r| r.engine_name == "Axis").unwrap();
    assert_eq!(axis.source.0, IpAddr::V4(240, 0, 0, 0));
    let arp = all.last().unwrap();
    assert_eq!(arp.engine_name, "ARP");
    assert_eq!(arp.source.0, IpAddr::V4(240, 0, 30, 0));
}

#[test]
fn replay_targets() {
    let all = replays();
    let t: Vec<Option<ReplayTarget>> = all.iter().map(target_of).collect();
    assert_eq!(t[2], Some(ReplayTarget::Datagram(Engine::Dahua1)));
    assert_eq!(t[3], Some(ReplayTarget::Datagram(Engine::Dahua2)));
    assert_eq!(t[5], Some(ReplayTarget::Mdns(Engine::Axis)));
    assert_eq!(t[30], Some(ReplayTarget::Arp));
    assert!(t.iter().all(|x| x.is_some()));
    let bogus = Replay { engine_name: "Nope".to_string(), fixture: "x".to_string(), source: (IpAddr::V4(240, 0, 0, 0), 1024) };
    assert_eq!(target_of(&bogus), None);
}

#[test]
fn replay_arp_frame() {
    let all = replays();
    let arp = all.last().unwrap();
    let bytes = frame::build_request([0x00, 0x11, 0x22, 0x33, 0x44, 0x55], [192, 168, 1, 50], [192, 168, 1, 50]);
    let devs = replay(arp, &bytes).unwrap();
    assert_eq!(devs.len(), 1);
    assert_eq!(devs[0].protocol, "ARP");
    assert_eq!(devs[0].version, 0);
    assert_eq!(devs[0].ip.to_text(), "192.168.1.50");
    assert_eq!(devs[0].device_type, "GARP");
    assert_eq!(devs[0].serial, "00:11:22:33:44:55");
}

#[test]
fn replay_datagram_uses_source_address() {
    let all = replays();
    let body = "HTTP/1.1 200 OK\r\nUSN: uuid:unique-id-12345678::upnp:rootdevice\r\nSERVER: Virtual/1.0\r\n\r\n";
    let devs = replay(&all[0], body.as_bytes()).unwrap();
    assert_eq!(devs.len(), 1);
    assert_eq!(devs[0].ip.to_text(), "240.0.1.0");
    assert_eq!(devs[0].device_type, "Virtual/1.0");
    assert_eq!(devs[0].serial, "unique-id-12345678");
}

#[test]
fn replay_mdns_is_none() {
    let all = replays();
    assert!(replay(&all[5], b"\x00\x00").is_none());
}

#[test]
fn catalog_covers_every_listed_engine() {
    for (id, _) in listed_engines() {
        assert!(!proto_meta(id).desc.is_empty(), "no description for {id}");
    }
    let m = proto_meta(31);
    assert_eq!(m.port, "23456");
    assert_eq!(m.listen, "multicast 234.55.55.55/.56 :23456");
    let none = proto_meta(27);
    assert_eq!((none.port, none.listen, none.desc), ("—", "—", ""));
}

#[test]
fn list_protocols_all_engines() {
    let mut out = String::new();
    out.push_str(&format!("{:<3} | {:<12} | {:<7} | {:<32} | Description\n", "ID", "Name", "Port", "Listen"));
    for (id, e) in listed_engines() {
        let m = proto_meta(id);
        out.push_str(&format!("{:<3} | {:<12} | {:<7} | {:<32} | {}\n", id, e.name(), m.port, m.listen, m.desc));
    }
    out.push_str("\nmDNS broker 5353 (shared, no registry ID): Axis / Google / Arecont consume mDNS via the broker.\n");
    for name in [
        "SSDP", "WSDiscovery", "Dahua", "Hikvision", "Axis", "Bosch", "Google", "Hanwha", "Vivotek", "Sony",
        "Ubiquiti", "360Vision", "NiceVision", "Panasonic", "Arecont", "GigEVision", "VStarcam", "Eaton", "Foscam",
        "Lantronix", "Microchip", "Advantech", "Eden", "CyberPower", "MSSQL", "ARP",
    ] {
        assert!(out.contains(name), "missing protocol name: {name}");
    }
    assert!(out.contains("mDNS broker"));
    let rows = out.lines().filter(|l| l.chars().next().is_some_and(|c| c.is_ascii_digit())).count();
    assert_eq!(rows, 28);
}

#[test]
fn scan_unknown_protocol_errors() {
    match Scanner::new(Config::default(), Some(names(&["nope"]).as_slice())) {
        Err(Error::Config(m)) => assert!(m.contains("unknown protocol")),
        _ => panic!("expected an unknown-protocol error"),
    }
}

#[test]
fn cli_cli_overrides_toml() {
    let mut f = PartialConfig::default();
    f.debug_mode = Some(true);
    let mut args = ScanArgs::default();
    args.no_debug = true;
    assert!(!effective_config(Some(f), &args).unwrap().debug_mode);
    let mut args = ScanArgs::default();
    args.debug = true;
    assert!(effective_config(Some(f), &args).unwrap().debug_mode);
    assert!(effective_config(Some(f), &ScanArgs::default()).unwrap().debug_mode);
}

#[test]
fn no_color_output_has_no_ansi() {
    let d = dev("ARP", 0, "192.168.1.50", "GARP", "00:11:22:33:44:55");
    let plain = render_row(&d, OutputFormat::Table, true, false);
    assert!(!plain.contains("\x1b["));
    let colored = render_row(&d, OutputFormat::Table, true, true);
    assert!(colored.contains("\x1b[38;2;0;0;255m"), "{colored:?}");
}

// ---------------------------------------------------------------- scan loop

fn opts(batch: bool, timeout_ms: Option<u64>, rescan_ms: Option<u64>) -> ScanOpts {
    ScanOpts { batch, timeout_ms, rescan_ms }
}

#[test]
fn scan_step_prints_new_rows_unless_batch() {
    let mut t = DeviceTable::new(false);
    let a = scan_step(&mut t, opts(false, None, None), ScanEvent::Report(dev("SSDP", 0, "10.0.0.1", "x", "s")), true, true);
    assert!(matches!(a, ScanAction::Print(ref d) if d.serial == "s"));
    let a = scan_step(&mut t, opts(false, None, None), ScanEvent::Report(dev("SSDP", 0, "10.0.0.1", "x", "s2")), true, true);
    assert!(matches!(a, ScanAction::Wait));
    let mut t = DeviceTable::new(false);
    let a = scan_step(&mut t, opts(true, None, None), ScanEvent::Report(dev("SSDP", 0, "10.0.0.1", "x", "s")), true, true);
    assert!(matches!(a, ScanAction::Wait));
    assert_eq!(t.len(), 1);
}

#[test]
fn scan_step_timeout_rescan_and_interrupt() {
    let mut t = DeviceTable::new(false);
    let o = opts(true, Some(3000), Some(1000));
    scan_step(&mut t, o, ScanEvent::Report(dev("SSDP", 0, "10.0.0.1", "x", "a")), true, true);
    scan_step(&mut t, o, ScanEvent::Report(dev("WSDiscovery", 0, "10.0.0.2", "y", "b")), true, true);
    assert!(matches!(scan_step(&mut t, o, ScanEvent::Tick { elapsed_ms: 500, since_round_ms: 500 }, true, true), ScanAction::Wait));
    assert!(matches!(scan_step(&mut t, o, ScanEvent::Tick { elapsed_ms: 1000, since_round_ms: 1000 }, true, true), ScanAction::SendRound));
    match scan_step(&mut t, o, ScanEvent::Tick { elapsed_ms: 3000, since_round_ms: 2000 }, true, true) {
        ScanAction::Finish { rows, code } => {
            assert_eq!(code, 0);
            let serials: Vec<&str> = rows.iter().map(|d| d.serial.as_str()).collect();
            assert_eq!(serials, vec!["a", "b"]);
        }
        other => panic!("unexpected {other:?}"),
    }
    match scan_step(&mut t, opts(false, Some(1), None), ScanEvent::Tick { elapsed_ms: 5, since_round_ms: 5 }, true, true) {
        ScanAction::Finish { rows, code } => assert!(rows.is_empty() && code == 0),
        other => panic!("unexpected {other:?}"),
    }
    match scan_step(&mut t, o, ScanEvent::Interrupted, true, true) {
        ScanAction::Finish { rows, code } => assert!(rows.is_empty() && code == 130),
        other => panic!("unexpected {other:?}"),
    }
    assert!(matches!(scan_step(&mut t, opts(false, None, None), ScanEvent::Tick { elapsed_ms: u64::MAX, since_round_ms: u64::MAX }, true, true), ScanAction::Wait));
}

#[test]
fn scan_opts_in_milliseconds() {
    let mut a = ScanArgs::default();
    a.batch = true;
    a.timeout = Some(2);
    a.rescan = Some(u64::MAX);
    let o = scan_opts(&a);
    assert_eq!(o, ScanOpts { batch: true, timeout_ms: Some(2000), rescan_ms: Some(u64::MAX) });
}
