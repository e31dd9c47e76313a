//! Bosch video devices: a 12-byte probe to UDP 1757, answered on 1758 by a
//! 32-byte binary record or by an XML document.

use vstd::prelude::*;
use chrono::Timelike;
use crate::bytes::{be32, push_be32};
use crate::devices::{Device, DeviceView, views, normalize_mac, normalized_mac};
use crate::ip::{IpAddr, ip_parse, parse_ip_chars};
use crate::protocols::common::{make_device, lit, xml_field, extract_xml_string};
use crate::text::{lossy_utf8, utf8_lossy, mac_chars, mac_chars_at, str_chars, string_from_chars};

verus! {

pub const REQUEST_PORT: u16 = 1757;
pub const ANSWER_PORT: u16 = 1758;

// ----------------------------------------------------------------------------
// Probe.
// ----------------------------------------------------------------------------

/// The system clock as seconds and nanoseconds since the Unix epoch (std
/// `SystemTime::now().duration_since(UNIX_EPOCH)`). Trusted: `None` when the
/// clock reads before the epoch; otherwise the nanoseconds are below one
/// second, as std documents for `Duration::subsec_nanos`. Which time it
/// reads, is not stated.
#[verifier::external_body]
fn unix_clock() -> (t: Option<(u64, u32)>)
    ensures
        t matches Some(v) ==> v.1 < 1_000_000_000,
{
    match std::time::SystemTime::now().duration_since(std::time::UNIX_EPOCH) {
        Ok(d) => Some((d.as_secs(), d.subsec_nanos())),
        Err(_) => None,
    }
}

/// The UTC time of day of a Unix time (chrono `DateTime::from_timestamp`,
/// then `hour`, `minute`, `second` and `timestamp_subsec_millis`).
/// Trusted, as chrono's source computes it: for nanoseconds below one
/// second, a result exactly for the times from the start of year -262143 to
/// the end of year 262142 (chrono's `MIN_YEAR` and `MAX_YEAR`); a result is
/// the hour, minute and second of the seconds into the (Euclidean) day and
/// the milliseconds of the nanoseconds.
#[verifier::external_body]
fn utc_time_of_day(secs: i64, nanos: u32) -> (t: Option<(u32, u32, u32, u32)>)
    ensures
        nanos < 1_000_000_000 ==> (t is Some <==> utc_date_range(secs as int)),
        t matches Some(v) ==> v == time_of_day(secs as int, nanos),
{
    match chrono::DateTime::from_timestamp(secs, nanos) {
        Some(dt) => Some((dt.hour(), dt.minute(), dt.second(), dt.timestamp_subsec_millis())),
        None => None,
    }
}

/// The Unix times (in seconds) that have a UTC date in chrono: from the
/// first second of year -262143 to the last of year 262142.
pub open spec fn utc_date_range(secs: int) -> bool {
    -8_334_601_315_200 <= secs <= 8_210_266_876_799
}

/// Hour, minute, second and milliseconds of a Unix time.
pub open spec fn time_of_day(secs: int, nanos: u32) -> (u32, u32, u32, u32) {
    let t = secs % 86400;
    ((t / 3600) as u32, (t % 3600 / 60) as u32, (t % 60) as u32, (nanos / 1_000_000) as u32)
}

/// The probe for a time of day: the answer magic, the time packed as
/// hour, minute, second and hundredths (one byte each), the request magic,
/// all big-endian.
pub open spec fn probe_bytes(hour: u32, minute: u32, second: u32, millis: u32) -> Seq<u8> {
    be32(0x9939a427) + seq![hour as u8, minute as u8, second as u8, (millis / 10) as u8] + be32(0xff0006de)
}

/// The probe for a given time of day.
pub fn probe_at(hour: u32, minute: u32, second: u32, millis: u32) -> (p: Vec<u8>)
    requires
        hour < 24,
        minute < 60,
        second < 60,
        millis < 2000,
    ensures
        p@ == probe_bytes(hour, minute, second, millis),
{
    let mut p: Vec<u8> = Vec::new();
    push_be32(&mut p, 0x9939a427);
    p.push(hour as u8);
    p.push(minute as u8);
    p.push(second as u8);
    p.push((millis / 10) as u8);
    push_be32(&mut p, 0xff0006de);
    assert(p@ =~= probe_bytes(hour, minute, second, millis));
    p
}

/// The probe for a Unix time: the probe for its time of day, for any time
/// up to the end of year 262142; `None` after that (no UTC date).
pub fn probe_for_time(secs: u64, nanos: u32) -> (p: Option<Vec<u8>>)
    requires
        nanos < 1_000_000_000,
    ensures
        p is Some <==> secs <= 8_210_266_876_799,
        p matches Some(b) ==> ({
            let (h, m, s, ms) = time_of_day(secs as int, nanos);
            b@ == probe_bytes(h, m, s, ms)
        }),
{
    if secs > i64::MAX as u64 {
        return None;
    }
    match utc_time_of_day(secs as i64, nanos) {
        Some((h, m, s, ms)) => {
            proof {
                assert(0 <= (secs as int) % 86400 < 86400);
            }
            Some(probe_at(h, m, s, ms))
        },
        None => None,
    }
}

/// The probe stamped with the current time of day; `None` when the clock
/// cannot be read (before 1970) or its time has no UTC date, in which case
/// no probe is sent.
pub fn build_probe() -> (p: Option<Vec<u8>>)
    ensures
        p matches Some(b) ==> exists|h: u32, m: u32, s: u32, ms: u32| h < 24 && m < 60 && s < 60 && ms < 2000
            && b@ == probe_bytes(h, m, s, ms),
{
    match unix_clock() {
        Some((secs, nanos)) => probe_for_time(secs, nanos),
        None => None,
    }
}

// ----------------------------------------------------------------------------
// Answers.
// ----------------------------------------------------------------------------

/// The device of a 32-byte binary answer (magic `99 39 A4 27`): the address
/// is the four bytes at 0x10 in reverse order, the MAC (also the serial) the
/// six bytes at 0x08.
pub open spec fn binary_devices(d: Seq<u8>) -> Seq<DeviceView> {
    if !(d[0] == 0x99 && d[1] == 0x39 && d[2] == 0xA4 && d[3] == 0x27) {
        Seq::empty()
    } else {
        let mac = mac_chars(d.subrange(8, 14));
        seq![DeviceView {
            protocol: "Bosch"@,
            version: 1,
            ip: IpAddr::V4(d[0x13], d[0x12], d[0x11], d[0x10]),
            mac,
            device_type: "Bosch"@,
            serial: mac,
        }]
    }
}

pub open spec fn or_empty(o: Option<Seq<char>>) -> Seq<char> {
    match o {
        Some(v) => v,
        None => Seq::empty(),
    }
}

/// The devices of an XML answer: model `friendlyName`, serial `serialNumber`
/// (else `physAddress`), MAC the normalised `physAddress`, address
/// `unitIPAddress` (else the sender's); a second device when
/// `unitIPv6Address` parses. Missing fields are empty.
pub open spec fn xml_devices(from: IpAddr, x: Seq<char>) -> Seq<DeviceView> {
    let model = or_empty(xml_field(x, "friendlyName"@));
    let serial = match xml_field(x, "serialNumber"@) {
        Some(s) => s,
        None => or_empty(xml_field(x, "physAddress"@)),
    };
    let mac = match xml_field(x, "physAddress"@) {
        Some(m) => normalized_mac(m),
        None => Seq::empty(),
    };
    let ip = match ip_parse(or_empty(xml_field(x, "unitIPAddress"@))) {
        Some(a) => a,
        None => from,
    };
    let first = DeviceView { protocol: "Bosch"@, version: 2, ip, mac, device_type: model, serial };
    match ip_parse(or_empty(xml_field(x, "unitIPv6Address"@))) {
        Some(a6) => seq![first, DeviceView { ip: a6, ..first }],
        None => seq![first],
    }
}

/// The devices of a datagram from `from`: 32 bytes are a binary answer,
/// anything else is read (leniently decoded) as XML.
pub open spec fn bosch_devices(from: IpAddr, d: Seq<u8>) -> Seq<DeviceView> {
    if d.len() == 32 {
        binary_devices(d)
    } else {
        xml_devices(from, lossy_utf8(d))
    }
}

fn field_or_empty(x: &[char], tag: &str) -> (r: Vec<char>)
    ensures
        r@ == or_empty(xml_field(x@, tag@)),
{
    match extract_xml_string(x, tag) {
        Some(v) => v,
        None => Vec::new(),
    }
}

pub fn parse(from: IpAddr, data: &[u8]) -> (devs: Vec<Device>)
    ensures
        views(devs@) == bosch_devices(from, data@),
{
    let mut out: Vec<Device> = Vec::new();
    if data.len() == 32 {
        if !(data[0] == 0x99 && data[1] == 0x39 && data[2] == 0xA4 && data[3] == 0x27) {
            return out;
        }
        let mac = mac_chars_at(data, 8);
        let ip = IpAddr::V4(data[0x13], data[0x12], data[0x11], data[0x10]);
        out.push(make_device("Bosch", 1, ip, mac.as_slice(), lit("Bosch").as_slice(), mac.as_slice()));
        assert(views(out@) =~= bosch_devices(from, data@));
        return out;
    }
    let x = utf8_lossy(data);
    let xs = x.as_slice();
    let model = field_or_empty(xs, "friendlyName");
    let serial = match extract_xml_string(xs, "serialNumber") {
        Some(s) => s,
        None => field_or_empty(xs, "physAddress"),
    };
    let mac: Vec<char> = match extract_xml_string(xs, "physAddress") {
        Some(m) => {
            let ms = string_from_chars(m.as_slice());
            let nm = normalize_mac(ms.as_str());
            str_chars(nm.as_str())
        },
        None => Vec::new(),
    };
    let v4 = field_or_empty(xs, "unitIPAddress");
    let ip = match parse_ip_chars(v4.as_slice()) {
        Some(a) => a,
        None => from,
    };
    out.push(make_device("Bosch", 2, ip, mac.as_slice(), model.as_slice(), serial.as_slice()));
    let v6 = field_or_empty(xs, "unitIPv6Address");
    match parse_ip_chars(v6.as_slice()) {
        Some(a6) => {
            out.push(make_device("Bosch", 2, a6, mac.as_slice(), model.as_slice(), serial.as_slice()));
        },
        None => {},
    }
    assert(views(out@) =~= bosch_devices(from, data@));
    out
}

} // verus!
