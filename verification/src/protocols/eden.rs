//! Eden Optima boxes (UDP 8088): the probe `DETECT BOX`, answered by
//! `BOX|<xml>...`.

use vstd::prelude::*;
use crate::devices::{Device, DeviceView, views};
use crate::ip::{IpAddr, ip_parse, parse_ip_chars};
use crate::protocols::common::{split_on, split_exec, char_views, chars_eq, make_device, lit, xml_field, extract_xml_string};
use crate::text::{lossy_utf8, utf8_lossy};

verus! {

pub const PORT: u16 = 8088;

pub fn build_probe() -> (p: Vec<u8>)
    ensures
        p@ == seq![0x44u8, 0x45, 0x54, 0x45, 0x43, 0x54, 0x20, 0x42, 0x4f, 0x58],
{
    let p: Vec<u8> = vec![0x44u8, 0x45, 0x54, 0x45, 0x43, 0x54, 0x20, 0x42, 0x4f, 0x58];
    assert(p@ =~= seq![0x44u8, 0x45, 0x54, 0x45, 0x43, 0x54, 0x20, 0x42, 0x4f, 0x58]);
    p
}

pub open spec fn or_empty(o: Option<Seq<char>>) -> Seq<char> {
    match o {
        Some(v) => v,
        None => Seq::empty(),
    }
}

/// The device of an answer from `from` (decoded leniently, split at `|`):
/// the first piece must be `BOX` and a second must follow; serial
/// `serialNumber` and address `adresseIP` of the second piece, the address
/// falling back to the sender's.
pub open spec fn eden_devices(from: IpAddr, t: Seq<char>) -> Seq<DeviceView> {
    let f = split_on(t, '|');
    if f[0] != "BOX"@ || f.len() < 2 {
        Seq::empty()
    } else {
        let ip = match ip_parse(or_empty(xml_field(f[1], "adresseIP"@))) {
            Some(a) => a,
            None => from,
        };
        seq![DeviceView {
            protocol: "Eden"@,
            version: 1,
            ip,
            mac: Seq::empty(),
            device_type: "Optima box"@,
            serial: or_empty(xml_field(f[1], "serialNumber"@)),
        }]
    }
}

pub fn parse(from: IpAddr, data: &[u8]) -> (devs: Vec<Device>)
    ensures
        views(devs@) == eden_devices(from, lossy_utf8(data@)),
{
    let mut out: Vec<Device> = Vec::new();
    let t = utf8_lossy(data);
    let f = split_exec(t.as_slice(), '|');
    proof {
        assert(split_on(t@, '|').len() >= 1) by {
            crate::protocols::common::lemma_split_nonempty(t@, '|', 0);
        }
    }
    if !chars_eq(f[0].as_slice(), lit("BOX").as_slice()) || f.len() < 2 {
        return out;
    }
    let body = f[1].as_slice();
    let serial = match extract_xml_string(body, "serialNumber") {
        Some(v) => v,
        None => Vec::new(),
    };
    let ipt = match extract_xml_string(body, "adresseIP") {
        Some(v) => v,
        None => Vec::new(),
    };
    let ip = match parse_ip_chars(ipt.as_slice()) {
        Some(a) => a,
        None => from,
    };
    let no_mac: Vec<char> = Vec::new();
    out.push(make_device("Eden", 1, ip, no_mac.as_slice(), lit("Optima box").as_slice(), serial.as_slice()));
    assert(views(out@) =~= eden_devices(from, lossy_utf8(data@)));
    out
}

} // verus!
