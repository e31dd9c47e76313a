//! Ubiquiti (UDP 10001) discovery: a 4-byte request and TLV replies.

use vstd::prelude::*;
use crate::devices::{Device, DeviceView, views};
use crate::ip::IpAddr;
use crate::text::{lossy_utf8, mac_chars, mac_chars_at};
use crate::protocols::common::{make_device, lossy_range, lit};

verus! {

pub const PORT: u16 = 10001;
pub const HEADER_SIZE: usize = 4;

/// The request: version 1 as LE32.
pub fn build_probe() -> (p: Vec<u8>)
    ensures
        p@ == seq![1u8, 0, 0, 0],
{
    let mut p: Vec<u8> = Vec::new();
    p.push(1);
    p.push(0);
    p.push(0);
    p.push(0);
    assert(p@ =~= seq![1u8, 0, 0, 0]);
    p
}

/// Fields collected from the records: first MAC bytes, first IPv4, first model.
pub struct Fields {
    pub mac: Option<Seq<u8>>,
    pub ip: Option<IpAddr>,
    pub model: Option<Seq<char>>,
}

/// One record at `pos` (type LE16, size byte, value): the next position and
/// fields, or `None` when the reply is dropped (a header or value past the
/// end, or the null type). Types 1 and 0x13 with 6 bytes give the MAC (if
/// none yet); type 2 with 10 bytes gives MAC and IPv4 (each if none yet);
/// types 0x0C and 0x15 with a non-empty value give the model (if none yet).
pub open spec fn step(d: Seq<u8>, pos: int, f: Fields) -> Option<(int, Fields)> {
    if pos + 3 >= d.len() {
        None
    } else {
        let t = d[pos] as int + d[pos + 1] as int * 256;
        let size = d[pos + 2] as int;
        let p = pos + 3;
        if p + size > d.len() {
            None
        } else {
            let v = d.subrange(p, p + size);
            let np = p + size;
            if t == 0 {
                None
            } else if (t == 1 || t == 0x13) && size == 6 && f.mac is None {
                Some((np, Fields { mac: Some(v), ..f }))
            } else if t == 2 && size == 10 {
                Some((np, Fields {
                    mac: if f.mac is None { Some(v.subrange(0, 6)) } else { f.mac },
                    ip: if f.ip is None { Some(IpAddr::V4(v[6], v[7], v[8], v[9])) } else { f.ip },
                    model: f.model,
                }))
            } else if (t == 0x0C || t == 0x15) && f.model is None && size > 0 {
                Some((np, Fields { model: Some(lossy_utf8(v)), ..f }))
            } else {
                Some((np, f))
            }
        }
    }
}

pub open spec fn walk(d: Seq<u8>, pos: int, f: Fields) -> Option<Fields>
    decreases d.len() - pos,
{
    if pos < 0 || pos >= d.len() {
        Some(f)
    } else {
        match step(d, pos, f) {
            None => None,
            Some((np, g)) => if np <= pos { None } else { walk(d, np, g) },
        }
    }
}

/// What a reply reports: nothing unless the BE16 packet size at 2 equals
/// the bytes after the 4-byte header, the records walk cleanly and a MAC
/// was found; then one entry with the IPv4 (else the sender), the model
/// (else `unknown`) and the MAC as serial.
pub open spec fn ubiquiti_devices(from: IpAddr, d: Seq<u8>) -> Seq<DeviceView> {
    if d.len() < 4 || d[2] as int * 256 + d[3] as int != d.len() - 4 {
        Seq::empty()
    } else {
        match walk(d, 4, Fields { mac: None, ip: None, model: None }) {
            Some(f) => match f.mac {
                Some(m) => seq![DeviceView {
                    protocol: "Ubiquiti"@,
                    version: 1,
                    ip: match f.ip {
                        Some(a) => a,
                        None => from,
                    },
                    mac: mac_chars(m),
                    device_type: match f.model {
                        Some(md) => md,
                        None => "unknown"@,
                    },
                    serial: mac_chars(m),
                }],
                None => Seq::empty(),
            },
            None => Seq::empty(),
        }
    }
}

pub struct ExecFields {
    pub mac: Option<usize>,
    pub ip: Option<IpAddr>,
    pub model: Option<Vec<char>>,
}

/// The view of the collected fields (the MAC as the 6 bytes at its offset).
pub open spec fn fields_view(d: Seq<u8>, f: ExecFields) -> Fields {
    Fields {
        mac: match f.mac {
            Some(o) => Some(d.subrange(o as int, o + 6)),
            None => None,
        },
        ip: f.ip,
        model: match f.model {
            Some(m) => Some(m@),
            None => None,
        },
    }
}

fn step_exec(data: &[u8], pos: usize, f: ExecFields) -> (r: Option<(usize, ExecFields)>)
    requires
        pos < data@.len(),
        f.mac matches Some(o) ==> o + 6 <= data@.len(),
    ensures
        match r {
            Some((np, g)) => step(data@, pos as int, fields_view(data@, f)) == Some((np as int, fields_view(data@, g)))
                && pos < np && (g.mac matches Some(o) ==> o + 6 <= data@.len()),
            None => step(data@, pos as int, fields_view(data@, f)) is None,
        },
{
    let len = data.len();
    if len - pos <= 3 {
        return None;
    }
    let t = data[pos] as u16 + data[pos + 1] as u16 * 256;
    let size = data[pos + 2] as usize;
    let p = pos + 3;
    if size > len - p {
        return None;
    }
    let np = p + size;
    let ghost v = data@.subrange(p as int, p + size);
    if t == 0 {
        None
    } else if (t == 1 || t == 0x13) && size == 6 && f.mac.is_none() {
        assert(data@.subrange(p as int, p + 6) =~= v);
        Some((np, ExecFields { mac: Some(p), ..f }))
    } else if t == 2 && size == 10 {
        assert(data@.subrange(p as int, p + 6) =~= v.subrange(0, 6));
        let mac = if f.mac.is_none() { Some(p) } else { f.mac };
        let ip = if f.ip.is_none() { Some(IpAddr::V4(data[p + 6], data[p + 7], data[p + 8], data[p + 9])) } else { f.ip };
        Some((np, ExecFields { mac, ip, model: f.model }))
    } else if (t == 0x0C || t == 0x15) && f.model.is_none() && size > 0 {
        Some((np, ExecFields { model: Some(lossy_range(data, p, np)), ..f }))
    } else {
        Some((np, f))
    }
}

/// Parses a reply.
pub fn parse(from: IpAddr, data: &[u8]) -> (devs: Vec<Device>)
    ensures
        views(devs@) == ubiquiti_devices(from, data@),
{
    let mut devs: Vec<Device> = Vec::new();
    let len = data.len();
    if len < HEADER_SIZE || data[2] as usize * 256 + data[3] as usize != len - HEADER_SIZE {
        assert(views(devs@) =~= Seq::<DeviceView>::empty());
        return devs;
    }
    let ghost d = data@;
    let mut f = ExecFields { mac: None, ip: None, model: None };
    let mut pos: usize = HEADER_SIZE;
    assert(fields_view(d, f) == (Fields { mac: None, ip: None, model: None }));
    while pos < len
        invariant
            len == data@.len(),
            d == data@,
            HEADER_SIZE <= pos,
            devs@.len() == 0,
            len >= 4 && d[2] as int * 256 + d[3] as int == len - 4,
            f.mac matches Some(o) ==> o + 6 <= d.len(),
            walk(d, pos as int, fields_view(d, f)) == walk(d, 4, (Fields { mac: None, ip: None, model: None })),
        decreases len - pos,
    {
        match step_exec(data, pos, f) {
            None => {
                assert(ubiquiti_devices(from, d) =~= Seq::<DeviceView>::empty());
                assert(views(devs@) =~= Seq::<DeviceView>::empty());
                return devs;
            },
            Some((np, g)) => {
                pos = np;
                f = g;
            },
        }
    }
    assert(walk(d, pos as int, fields_view(d, f)) == Some(fields_view(d, f)));
    match f.mac {
        Some(o) => {
            let m = mac_chars_at(data, o);
            let ip = match f.ip {
                Some(a) => a,
                None => from,
            };
            let model = match f.model {
                Some(md) => md,
                None => lit("unknown"),
            };
            devs.push(make_device("Ubiquiti", 1, ip, m.as_slice(), model.as_slice(), m.as_slice()));
        },
        None => {},
    }
    assert(views(devs@) =~= ubiquiti_devices(from, data@));
    devs
}

} // verus!
