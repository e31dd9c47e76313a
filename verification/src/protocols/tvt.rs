//! TVT cameras (`MHED` over UDP 23456): a 140-byte probe to the group
//! 234.55.55.55, answered (240 bytes) on the group 234.55.55.56.
//!
//! Answer layout: device type at 0x0C (C string), MAC at 0x20, IP at 0x28,
//! serial at 0x8C (12-byte C string), second device type at 0xC4.

use vstd::prelude::*;
use crate::devices::{Device, DeviceView, views};
use crate::ip::IpAddr;
use crate::protocols::common::{cstr, cstring, make_device};
use crate::text::{mac_chars, mac_chars_at};

verus! {

pub const PORT: u16 = 23456;

/// The probe: `MHED`, version 0x00010009 (LE32), type 1, zeros up to 140 bytes.
pub open spec fn tvt_probe() -> Seq<u8> {
    Seq::new(140, |i: int| if i == 0 {
        0x4du8
    } else if i == 1 {
        0x48u8
    } else if i == 2 {
        0x45u8
    } else if i == 3 {
        0x44u8
    } else if i == 4 {
        0x09u8
    } else if i == 6 || i == 8 {
        0x01u8
    } else {
        0u8
    })
}

pub fn build_probe() -> (p: [u8; 140])
    ensures
        p@ == tvt_probe(),
{
    let mut p = [0u8; 140];
    p[0] = 0x4d;
    p[1] = 0x48;
    p[2] = 0x45;
    p[3] = 0x44;
    p[4] = 0x09;
    p[6] = 0x01;
    p[8] = 0x01;
    assert(p@ =~= tvt_probe());
    p
}

/// The device an answer describes. An answer has at least 152 bytes, starts
/// with `MHED`, version byte 0x08 and type 2 (LE32 at 8). The address is the
/// one at 0x28 unless it is 0.0.0.0 (then the sender's); the type is the C
/// string at 0x0C, or the one at 0xC4 when that one is empty and the answer
/// reaches it; the serial is the C string at 0x8C, or the MAC when empty.
pub open spec fn tvt_devices(from: IpAddr, d: Seq<u8>) -> Seq<DeviceView> {
    if d.len() < 152 || !(d[0] == 0x4d && d[1] == 0x48 && d[2] == 0x45 && d[3] == 0x44) || d[4] != 0x08
        || !(d[8] == 2 && d[9] == 0 && d[10] == 0 && d[11] == 0) {
        Seq::empty()
    } else {
        let ip = if d[0x28] == 0 && d[0x29] == 0 && d[0x2a] == 0 && d[0x2b] == 0 {
            from
        } else {
            IpAddr::V4(d[0x28], d[0x29], d[0x2a], d[0x2b])
        };
        let t1 = cstr(d.subrange(0x0C, 0x14));
        let ty = if d.len() >= 0xCC && t1.len() == 0 {
            cstr(d.subrange(0xC4, 0xCC))
        } else {
            t1
        };
        let mac = mac_chars(d.subrange(0x20, 0x26));
        let s = cstr(d.subrange(0x8C, 0x98));
        seq![DeviceView {
            protocol: "TVT"@,
            version: 1,
            ip,
            mac,
            device_type: ty,
            serial: if s.len() == 0 { mac } else { s },
        }]
    }
}

/// The devices of a datagram from `from`.
pub fn parse(from: IpAddr, data: &[u8]) -> (devs: Vec<Device>)
    ensures
        views(devs@) == tvt_devices(from, data@),
{
    let mut out: Vec<Device> = Vec::new();
    let n = data.len();
    if n < 152 || !(data[0] == 0x4d && data[1] == 0x48 && data[2] == 0x45 && data[3] == 0x44) || data[4] != 0x08
        || !(data[8] == 2 && data[9] == 0 && data[10] == 0 && data[11] == 0) {
        return out;
    }
    let ip = if data[0x28] == 0 && data[0x29] == 0 && data[0x2a] == 0 && data[0x2b] == 0 {
        from
    } else {
        IpAddr::V4(data[0x28], data[0x29], data[0x2a], data[0x2b])
    };
    let t1 = cstring(data, 0x0C, 0x14);
    let ty = if n >= 0xCC && t1.len() == 0 {
        cstring(data, 0xC4, 0xCC)
    } else {
        t1
    };
    let mac = mac_chars_at(data, 0x20);
    let s = cstring(data, 0x8C, 0x98);
    let serial = if s.len() == 0 {
        mac_chars_at(data, 0x20)
    } else {
        s
    };
    out.push(make_device("TVT", 1, ip, mac.as_slice(), ty.as_slice(), serial.as_slice()));
    assert(views(out@) =~= tvt_devices(from, data@));
    out
}

} // verus!
