//! Hikvision devices: an XML inquiry to 239.255.255.250:37020, answered by
//! a `<ProbeMatch>` document.

use vstd::prelude::*;
use vstd::string::StringSliceAdditionalSpecFns;
use vstd::utf8::encode_utf8;
use crate::devices::{Device, DeviceView, views};
use crate::ip::{IpAddr, ip_parse, ip_text, parse_ip_chars};
use crate::protocols::common::{find_sub, find_sub_exec, make_device, lit, xml_field, extract_xml_string};
use crate::text::{lossy_utf8, utf8_lossy, slice_vec, str_chars};

verus! {

pub const PORT: u16 = 37020;

/// The inquiry document.
pub open spec fn probe_text() -> Seq<char> {
    "<?xml version=\"1.0\" encoding=\"utf-8\"?><Probe><Uuid>6a0eaae3-897b-4472-a692-ca0b08e09cd1</Uuid><Types>inquiry</Types></Probe>"@
}

pub fn build_probe() -> (p: Vec<u8>)
    ensures
        p@ == encode_utf8(probe_text()),
{
    let s = "<?xml version=\"1.0\" encoding=\"utf-8\"?><Probe><Uuid>6a0eaae3-897b-4472-a692-ca0b08e09cd1</Uuid><Types>inquiry</Types></Probe>";
    let b = s.as_bytes();
    let n = b.len();
    slice_vec(b, 0, n)
}

pub open spec fn or_empty(o: Option<Seq<char>>) -> Seq<char> {
    match o {
        Some(v) => v,
        None => Seq::empty(),
    }
}

/// The devices of an answer from `from` (decoded leniently), which must
/// hold `<ProbeMatch>`: type `DeviceDescription`, serial `DeviceSN`, address
/// `IPv4Address` (the sender's when absent or unparsable), and a second
/// device at `IPv6Address` when that parses.
pub open spec fn hik_devices(from: IpAddr, x: Seq<char>) -> Seq<DeviceView> {
    if find_sub(x, "<ProbeMatch>"@, 0) is None {
        Seq::empty()
    } else {
        let ty = or_empty(xml_field(x, "DeviceDescription"@));
        let sn = or_empty(xml_field(x, "DeviceSN"@));
        let v4 = match xml_field(x, "IPv4Address"@) {
            Some(s) => s,
            None => ip_text(from),
        };
        let ip = match ip_parse(v4) {
            Some(a) => a,
            None => from,
        };
        let first = DeviceView { protocol: "Hikvision"@, version: 1, ip, mac: Seq::empty(), device_type: ty, serial: sn };
        match xml_field(x, "IPv6Address"@) {
            Some(s6) => match ip_parse(s6) {
                Some(a6) => seq![first, DeviceView { ip: a6, ..first }],
                None => seq![first],
            },
            None => seq![first],
        }
    }
}

pub fn parse(from: IpAddr, data: &[u8]) -> (devs: Vec<Device>)
    ensures
        views(devs@) == hik_devices(from, lossy_utf8(data@)),
{
    let mut out: Vec<Device> = Vec::new();
    let x = utf8_lossy(data);
    let xs = x.as_slice();
    if find_sub_exec(xs, lit("<ProbeMatch>").as_slice(), 0).is_none() {
        return out;
    }
    let ty = match extract_xml_string(xs, "DeviceDescription") {
        Some(v) => v,
        None => Vec::new(),
    };
    let sn = match extract_xml_string(xs, "DeviceSN") {
        Some(v) => v,
        None => Vec::new(),
    };
    let v4 = match extract_xml_string(xs, "IPv4Address") {
        Some(v) => v,
        None => {
            let mut t: Vec<char> = Vec::new();
            from.push_text(&mut t);
            assert(t@ =~= ip_text(from));
            t
        },
    };
    let ip = match parse_ip_chars(v4.as_slice()) {
        Some(a) => a,
        None => from,
    };
    let no_mac: Vec<char> = Vec::new();
    out.push(make_device("Hikvision", 1, ip, no_mac.as_slice(), ty.as_slice(), sn.as_slice()));
    match extract_xml_string(xs, "IPv6Address") {
        Some(s6) => match parse_ip_chars(s6.as_slice()) {
            Some(a6) => {
                out.push(make_device("Hikvision", 1, a6, no_mac.as_slice(), ty.as_slice(), sn.as_slice()));
            },
            None => {},
        },
        None => {},
    }
    assert(views(out@) =~= hik_devices(from, lossy_utf8(data@)));
    out
}

/// An answer yields at most two devices; the first carries the
/// `DeviceDescription` text as type and the `DeviceSN` text as serial
/// (empty when absent); a second one (at the IPv6 address) differs from the
/// first only in its address.
pub proof fn law_hik_second_entry_same_but_address(from: IpAddr, x: Seq<char>)
    ensures
        hik_devices(from, x).len() <= 2,
        hik_devices(from, x).len() >= 1 ==> {
            let r = hik_devices(from, x);
            &&& r[0].serial == (match xml_field(x, "DeviceSN"@) {
                Some(v) => v,
                None => Seq::<char>::empty(),
            })
            &&& r[0].device_type == (match xml_field(x, "DeviceDescription"@) {
                Some(v) => v,
                None => Seq::<char>::empty(),
            })
        },
        hik_devices(from, x).len() == 2 ==> {
            let r = hik_devices(from, x);
            &&& r[1].serial == r[0].serial
            &&& r[1].device_type == r[0].device_type
            &&& r[1].protocol == r[0].protocol
            &&& r[1].version == r[0].version
            &&& r[1].mac == r[0].mac
        },
{
}

} // verus!
