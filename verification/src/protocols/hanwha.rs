//! Hanwha cameras: a 262-byte request to UDP 7701, answered on 7711 with a
//! fixed-layout record of text fields.

use vstd::prelude::*;
use crate::devices::{Device, DeviceView, views};
use crate::ip::{IpAddr, ip_parse, parse_ip_chars};
use crate::protocols::common::{cstr, cstring, make_device};

verus! {

pub const ANSWER_PORT: u16 = 7711;
pub const REQUEST_PORT: u16 = 7701;

/// The request: 262 bytes, the first 0x01 (request), the rest zero.
pub fn build_probe() -> (p: Vec<u8>)
    ensures
        p@.len() == 0x106,
        p@[0] == 0x01,
        forall|i: int| 1 <= i < 0x106 ==> p@[i] == 0,
{
    let mut p: Vec<u8> = Vec::new();
    p.push(0x01);
    while p.len() < 0x106
        invariant
            1 <= p@.len() <= 0x106,
            p@[0] == 0x01,
            forall|i: int| 1 <= i < p@.len() ==> p@[i] == 0,
        decreases 0x106 - p@.len(),
    {
        p.push(0);
    }
    p
}

/// A fixed-size field: `n` bytes from `off`, zero-filled past the end of the data.
pub open spec fn struct_field(d: Seq<u8>, off: int, n: int) -> Seq<u8> {
    Seq::new(n as nat, |i: int| if off + i < d.len() { d[off + i] } else { 0u8 })
}

/// The device of an answer from `from`: serial the MAC text field at 0x13
/// (18 bytes), address the text at 0x25 (16 bytes, the sender's when it does
/// not parse), type the text at 0x6D (10 bytes).
pub open spec fn hanwha_devices(from: IpAddr, d: Seq<u8>) -> Seq<DeviceView> {
    let ip = match ip_parse(cstr(struct_field(d, 0x25, 16))) {
        Some(a) => a,
        None => from,
    };
    seq![DeviceView {
        protocol: "Hanwha"@,
        version: 1,
        ip,
        mac: Seq::empty(),
        device_type: cstr(struct_field(d, 0x6D, 10)),
        serial: cstr(struct_field(d, 0x13, 18)),
    }]
}

fn struct_field_exec(d: &[u8], off: usize, n: usize) -> (f: Vec<u8>)
    ensures
        f@ == struct_field(d@, off as int, n as int),
{
    let mut f: Vec<u8> = Vec::new();
    let mut i: usize = 0;
    while i < n
        invariant
            i <= n,
            f@.len() == i,
            forall|k: int| 0 <= k < i ==> f@[k] == (if off + k < d@.len() { d@[off + k] } else { 0u8 }),
        decreases n - i,
    {
        let b = if off < d.len() && i < d.len() - off { d[off + i] } else { 0 };
        f.push(b);
        i += 1;
    }
    assert(f@ =~= struct_field(d@, off as int, n as int));
    f
}

pub fn parse(from: IpAddr, data: &[u8]) -> (devs: Vec<Device>)
    ensures
        views(devs@) == hanwha_devices(from, data@),
{
    let mut out: Vec<Device> = Vec::new();
    let macf = struct_field_exec(data, 0x13, 18);
    let ipf = struct_field_exec(data, 0x25, 16);
    let tyf = struct_field_exec(data, 0x6D, 10);
    let serial = cstring(macf.as_slice(), 0, 18);
    let ipt = cstring(ipf.as_slice(), 0, 16);
    let ty = cstring(tyf.as_slice(), 0, 10);
    proof {
        assert(macf@.subrange(0, 18) =~= macf@);
        assert(ipf@.subrange(0, 16) =~= ipf@);
        assert(tyf@.subrange(0, 10) =~= tyf@);
    }
    let ip = match parse_ip_chars(ipt.as_slice()) {
        Some(a) => a,
        None => from,
    };
    let no_mac: Vec<char> = Vec::new();
    out.push(make_device("Hanwha", 1, ip, no_mac.as_slice(), ty.as_slice(), serial.as_slice()));
    assert(views(out@) =~= hanwha_devices(from, data@));
    out
}

} // verus!
