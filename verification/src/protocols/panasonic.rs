//! Panasonic cameras: a 52-byte probe broadcast to UDP 10670, answered on
//! 10669 by a 52-byte header followed by TLV records from offset 53.

use vstd::prelude::*;
use crate::bytes::{be32};
use crate::devices::{Device, DeviceView, views};
use crate::ip::{IpAddr, v6_of_bytes, v6_from_bytes};
use crate::protocols::common::make_device;
use crate::text::{lossy_utf8, utf8_lossy, mac_chars, mac_chars_at, slice_vec};

verus! {

pub const PROBE_PORT: u16 = 10670;
pub const ANSWER_PORT: u16 = 10669;

/// The probe: header magic 0x00010000, 0x000D0000, broadcast MAC and
/// address, four fixed words, 0x0000FFFF at 0x2E and a zero checksum.
pub open spec fn panasonic_probe() -> Seq<u8> {
    be32(0x00010000) + be32(0x000D0000) + Seq::new(4, |i: int| 0u8) + Seq::new(10, |i: int| 0xFFu8)
        + be32(0x00012011) + be32(0x1E11231F) + be32(0x1E191300) + be32(0x00020000) + Seq::new(8, |i: int| 0u8)
        + be32(0x0000FFFF) + seq![0u8, 0]
}

pub fn build_probe() -> (p: [u8; 52])
    ensures
        p@ == panasonic_probe(),
{
    let p = [
        0x00u8, 0x01, 0x00, 0x00, 0x00, 0x0d, 0x00, 0x00, 0x00, 0x00, 0x00, 0x00, 0xff, 0xff, 0xff, 0xff, 0xff, 0xff,
        0xff, 0xff, 0xff, 0xff, 0x00, 0x01, 0x20, 0x11, 0x1e, 0x11, 0x23, 0x1f, 0x1e, 0x19, 0x13, 0x00, 0x00, 0x02,
        0x00, 0x00, 0x00, 0x00, 0x00, 0x00, 0x00, 0x00, 0x00, 0x00, 0x00, 0x00, 0xff, 0xff, 0x00, 0x00,
    ];
    assert(p@ =~= panasonic_probe());
    p
}

/// The first value of each record the answer needs.
pub struct PanaFields {
    pub ip: Option<Seq<u8>>,
    pub full_name: Option<Seq<u8>>,
    pub short_name: Option<Seq<u8>>,
}

/// Keeps a record's value when its key is one of interest and not seen yet.
pub open spec fn pana_record(st: PanaFields, key: int, v: Seq<u8>) -> PanaFields {
    if key == 0x0020 && st.ip is None {
        PanaFields { ip: Some(v), ..st }
    } else if key == 0x00A7 && st.full_name is None {
        PanaFields { full_name: Some(v), ..st }
    } else if key == 0x00A8 && st.short_name is None {
        PanaFields { short_name: Some(v), ..st }
    } else {
        st
    }
}

/// The records from offset `i`: key and length (big-endian 16 bits each),
/// then the value; the walk stops when fewer than five bytes remain or a
/// value would reach the end of the answer.
pub open spec fn pana_walk(d: Seq<u8>, i: int, st: PanaFields) -> PanaFields
    decreases d.len() - i,
{
    if i < 0 || i + 4 >= d.len() {
        st
    } else {
        let key = d[i] as int * 256 + d[i + 1] as int;
        let len = d[i + 2] as int * 256 + d[i + 3] as int;
        let j = i + 4;
        if j + len >= d.len() {
            st
        } else {
            pana_walk(d, j + len, pana_record(st, key, d.subrange(j, j + len)))
        }
    }
}

/// The address a value holds: four bytes IPv4, sixteen bytes IPv6.
pub open spec fn pana_ip(v: Seq<u8>) -> Option<IpAddr> {
    if v.len() == 4 {
        Some(IpAddr::V4(v[0], v[1], v[2], v[3]))
    } else if v.len() == 16 {
        Some(v6_of_bytes(v))
    } else {
        None
    }
}

/// The device of an answer (longer than its 52-byte header): the model is
/// the full name (key 0xA7), else the short name (0xA8); the address key
/// 0x20; the MAC (also the serial) the six bytes at 6. No device without a
/// model or an address.
pub open spec fn panasonic_devices(d: Seq<u8>) -> Seq<DeviceView> {
    if d.len() <= 52 {
        Seq::empty()
    } else {
        let f = pana_walk(d, 53, PanaFields { ip: None, full_name: None, short_name: None });
        let model = match f.full_name {
            Some(v) => Some(v),
            None => f.short_name,
        };
        let ip = match f.ip {
            Some(v) => pana_ip(v),
            None => None,
        };
        match (model, ip) {
            (Some(m), Some(a)) => {
                let mac = mac_chars(d.subrange(6, 12));
                seq![DeviceView { protocol: "Panasonic"@, version: 1, ip: a, mac, device_type: lossy_utf8(m), serial: mac }]
            },
            _ => Seq::empty(),
        }
    }
}

pub open spec fn opt_bytes(o: Option<Vec<u8>>) -> Option<Seq<u8>> {
    match o {
        Some(v) => Some(v@),
        None => None,
    }
}

pub fn parse(data: &[u8]) -> (devs: Vec<Device>)
    ensures
        views(devs@) == panasonic_devices(data@),
{
    let mut out: Vec<Device> = Vec::new();
    let n = data.len();
    if n <= 52 {
        return out;
    }
    let ghost start = PanaFields { ip: None, full_name: None, short_name: None };
    let mut ip: Option<Vec<u8>> = None;
    let mut full: Option<Vec<u8>> = None;
    let mut short: Option<Vec<u8>> = None;
    let mut i: usize = 53;
    let mut go = true;
    while go && 4 < n - i
        invariant
            n == data@.len(),
            n > 52,
            go ==> pana_walk(data@, 53, start) == pana_walk(data@, i as int, PanaFields {
                ip: opt_bytes(ip),
                full_name: opt_bytes(full),
                short_name: opt_bytes(short),
            }),
            !go ==> pana_walk(data@, 53, start) == (PanaFields { ip: opt_bytes(ip), full_name: opt_bytes(full), short_name: opt_bytes(short) }),
            i >= 53,
            i <= n,
        decreases n - i + (if go { 1int } else { 0int }),
    {
        let key: u32 = data[i] as u32 * 256 + data[i + 1] as u32;
        let len: usize = data[i + 2] as usize * 256 + data[i + 3] as usize;
        let j = i + 4;
        if len >= n - j {
            go = false;
        } else {
            let v = slice_vec(data, j, j + len);
            if key == 0x0020 && ip.is_none() {
                ip = Some(v);
            } else if key == 0x00A7 && full.is_none() {
                full = Some(v);
            } else if key == 0x00A8 && short.is_none() {
                short = Some(v);
            }
            i = j + len;
        }
    }
    let model: Option<Vec<u8>> = match full {
        Some(v) => Some(v),
        None => short,
    };
    let addr: Option<IpAddr> = match ip {
        Some(v) => if v.len() == 4 {
            Some(IpAddr::V4(v[0], v[1], v[2], v[3]))
        } else if v.len() == 16 {
            Some(v6_from_bytes(v.as_slice()))
        } else {
            None
        },
        None => None,
    };
    match (model, addr) {
        (Some(m), Some(a)) => {
            let mac = mac_chars_at(data, 6);
            let ty = utf8_lossy(m.as_slice());
            out.push(make_device("Panasonic", 1, a, mac.as_slice(), ty.as_slice(), mac.as_slice()));
        },
        _ => {},
    }
    assert(views(out@) =~= panasonic_devices(data@));
    out
}

} // verus!
