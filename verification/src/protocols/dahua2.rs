//! Dahua (second generation, DHIP JSON over UDP 37810) discovery.

use vstd::prelude::*;
use vstd::string::StringSliceAdditionalSpecFns;
use crate::devices::{Device, DeviceView, views};
use crate::ip::{IpAddr, ip_parse, parse_ip_chars};
use crate::text::{lossy_utf8, slice_vec};
use crate::bytes::{le32, push_le32};
use crate::protocols::common::{dev, make_device, lit, lossy_range};
use crate::protocols::json::{json_string, json_section, extract_json_string, extract_json_section};

verus! {

pub const PORT: u16 = 37810;
pub const HEADER_SIZE: usize = 0x20;

/// The 32-byte DHIP header for a body of `n` bytes: header size 32 (LE32),
/// `DHIP`, and the body length (LE32) at 0x10 and 0x18.
pub open spec fn dhip_header(n: u32) -> Seq<u8> {
    le32(32) + seq![0x44u8, 0x48, 0x49, 0x50] + Seq::new(8, |i: int| 0u8) + le32(n) + Seq::new(4, |i: int| 0u8)
        + le32(n) + Seq::new(4, |i: int| 0u8)
}

fn push_zeros(out: &mut Vec<u8>, n: usize)
    ensures
        final(out)@ == old(out)@ + Seq::new(n as nat, |i: int| 0u8),
{
    let ghost o = old(out)@;
    let mut k: usize = 0;
    while k < n
        invariant
            k <= n,
            out@ == o + Seq::new(k as nat, |i: int| 0u8),
        decreases n - k,
    {
        out.push(0);
        k += 1;
        assert(out@ =~= o + Seq::new(k as nat, |i: int| 0u8));
    }
}

/// The DHIP header for a body length.
pub fn header(body_len: u32) -> (h: Vec<u8>)
    ensures
        h@ == dhip_header(body_len),
{
    let mut h: Vec<u8> = Vec::new();
    push_le32(&mut h, 32);
    h.push(0x44);
    h.push(0x48);
    h.push(0x49);
    h.push(0x50);
    push_zeros(&mut h, 8);
    push_le32(&mut h, body_len);
    push_zeros(&mut h, 4);
    push_le32(&mut h, body_len);
    push_zeros(&mut h, 4);
    assert(h@ =~= dhip_header(body_len));
    h
}

/// The search request: the DHIP header and the JSON body, as bytes.
pub open spec fn search_probe(body: Seq<u8>) -> Seq<u8> {
    dhip_header(body.len() as u32) + body
}

/// The search request.
pub open spec fn search_request() -> Seq<u8> {
    search_probe("{\"method\":\"DHDiscover.search\",\"params\":{\"mac\":\"\",\"uni\":0}}\n".spec_bytes())
}

/// Builds the search request.
pub fn build_probe() -> (p: Vec<u8>)
    ensures
        p@ == search_request(),
{
    let body = "{\"method\":\"DHDiscover.search\",\"params\":{\"mac\":\"\",\"uni\":0}}\n".as_bytes();
    let mut p = header(body.len() as u32);
    let ghost h = p@;
    let mut i: usize = 0;
    while i < body.len()
        invariant
            i <= body@.len(),
            p@ == h + body@.subrange(0, i as int),
        decreases body@.len() - i,
    {
        p.push(body[i]);
        i += 1;
        assert(p@ =~= h + body@.subrange(0, i as int));
    }
    assert(body@.subrange(0, body@.len() as int) =~= body@);
    p
}

/// Whether the packet has a DHIP header whose size field is 32 and whose
/// first body-length field matches the actual body length.
pub open spec fn dhip_valid(d: Seq<u8>) -> bool {
    d.len() >= 32 && d[0] == 32 && d[1] == 0 && d[2] == 0 && d[3] == 0
        && d[0x10] as int + d[0x11] as int * 256 + d[0x12] as int * 65536 + d[0x13] as int * 16777216 == d.len() - 32
}

/// The IPv6 text as the scanner reads it: at the first `/` or `\`, if it
/// is not the first character, the text is cut one character before it
/// (so the character before the prefix length is lost too).
pub open spec fn v6_quirk(v: Seq<char>) -> Seq<char> {
    match slash_index(v, 0) {
        Some(sub) => if sub > 0 { v.subrange(0, sub - 1) } else { v },
        None => v,
    }
}

pub open spec fn slash_index(v: Seq<char>, i: int) -> Option<int>
    decreases v.len() - i,
{
    if i < 0 || i >= v.len() {
        None
    } else if v[i] == '/' || v[i] == '\\' {
        Some(i)
    } else {
        slash_index(v, i + 1)
    }
}

/// The entries of a `client.notifyDevInfo` body: the IPv4 entry (the
/// address of `IPv4Address.IPAddress` when present and parsing, and not
/// 0.0.0.0, else the sender) and, when `IPv6Address.IPAddress` is present
/// and parses after the quirk cut, an IPv6 entry; both version 2, with the
/// model from `DeviceType` (default `Dahua`) and the serial from `SerialNo`,
/// else `mac`, else `Dahua device`.
pub open spec fn dahua2_body(from: IpAddr, body: Seq<char>) -> Seq<DeviceView> {
    if json_string(body, "method"@) != Some("client.notifyDevInfo"@) {
        Seq::empty()
    } else {
        let model = match json_string(body, "DeviceType"@) {
            Some(m) => m,
            None => "Dahua"@,
        };
        let parsed = match json_section(body, "IPv4Address"@) {
            Some(sec) => match json_string(sec, "IPAddress"@) {
                Some(t) => match ip_parse(t) {
                    Some(a) => a,
                    None => from,
                },
                None => from,
            },
            None => from,
        };
        let ip = if parsed == IpAddr::V4(0, 0, 0, 0) { from } else { parsed };
        let serial = match json_string(body, "SerialNo"@) {
            Some(v) => v,
            None => match json_string(body, "mac"@) {
                Some(v) => v,
                None => "Dahua device"@,
            },
        };
        let first = dev("Dahua"@, 2, ip, model, serial);
        let v6 = match json_section(body, "IPv6Address"@) {
            Some(sec) => match json_string(sec, "IPAddress"@) {
                Some(t) => ip_parse(v6_quirk(t)),
                None => None,
            },
            None => None,
        };
        match v6 {
            Some(ip6) => seq![first, dev("Dahua"@, 2, ip6, model, serial)],
            None => seq![first],
        }
    }
}

/// What a reply reports: nothing unless the DHIP header is valid, else the
/// entries of its (leniently decoded) body.
pub open spec fn dahua2_devices(from: IpAddr, d: Seq<u8>) -> Seq<DeviceView> {
    if !dhip_valid(d) {
        Seq::empty()
    } else {
        dahua2_body(from, lossy_utf8(d.subrange(32, d.len() as int)))
    }
}

fn slash_index_exec(v: &[char], i: usize) -> (r: Option<usize>)
    ensures
        match r {
            Some(k) => slash_index(v@, i as int) == Some(k as int) && i <= k < v@.len(),
            None => slash_index(v@, i as int) is None,
        },
    decreases v@.len() - i,
{
    if i >= v.len() {
        None
    } else if v[i] == '/' || v[i] == '\\' {
        Some(i)
    } else {
        slash_index_exec(v, i + 1)
    }
}

fn v6_quirk_exec(v: &[char]) -> (r: Vec<char>)
    ensures
        r@ == v6_quirk(v@),
{
    match slash_index_exec(v, 0) {
        Some(sub) => {
            if sub > 0 {
                slice_vec(v, 0, sub - 1)
            } else {
                slice_vec(v, 0, v.len())
            }
        },
        None => slice_vec(v, 0, v.len()),
    }
}

fn body_devices(from: IpAddr, body: &[char]) -> (devs: Vec<Device>)
    ensures
        views(devs@) == dahua2_body(from, body@),
{
    let mut devs: Vec<Device> = Vec::new();
    let method = extract_json_string("method", body);
    let want = lit("client.notifyDevInfo");
    let ok = match &method {
        Some(m) => crate::protocols::common::chars_eq(m.as_slice(), want.as_slice()),
        None => false,
    };
    if !ok {
        assert(views(devs@) =~= Seq::<DeviceView>::empty());
        return devs;
    }
    let model = match extract_json_string("DeviceType", body) {
        Some(m) => m,
        None => lit("Dahua"),
    };
    let parsed = match extract_json_section("IPv4Address", body) {
        Some(sec) => match extract_json_string("IPAddress", sec.as_slice()) {
            Some(t) => match parse_ip_chars(t.as_slice()) {
                Some(a) => a,
                None => from,
            },
            None => from,
        },
        None => from,
    };
    let ip = if parsed == IpAddr::V4(0, 0, 0, 0) { from } else { parsed };
    let serial = match extract_json_string("SerialNo", body) {
        Some(v) => v,
        None => match extract_json_string("mac", body) {
            Some(v) => v,
            None => lit("Dahua device"),
        },
    };
    let no_mac: Vec<char> = Vec::new();
    devs.push(make_device("Dahua", 2, ip, no_mac.as_slice(), model.as_slice(), serial.as_slice()));
    let v6 = match extract_json_section("IPv6Address", body) {
        Some(sec) => match extract_json_string("IPAddress", sec.as_slice()) {
            Some(t) => {
                let cut = v6_quirk_exec(t.as_slice());
                parse_ip_chars(cut.as_slice())
            },
            None => None,
        },
        None => None,
    };
    match v6 {
        Some(ip6) => {
            devs.push(make_device("Dahua", 2, ip6, no_mac.as_slice(), model.as_slice(), serial.as_slice()));
        },
        None => {},
    }
    assert(views(devs@) =~= dahua2_body(from, body@));
    devs
}

/// Parses a reply.
pub fn parse(from: IpAddr, data: &[u8]) -> (devs: Vec<Device>)
    ensures
        views(devs@) == dahua2_devices(from, data@),
{
    if data.len() < HEADER_SIZE || data[0] != 32 || data[1] != 0 || data[2] != 0 || data[3] != 0 {
        let devs: Vec<Device> = Vec::new();
        assert(views(devs@) =~= Seq::<DeviceView>::empty());
        return devs;
    }
    let size1 = data[0x10] as u64 + data[0x11] as u64 * 256 + data[0x12] as u64 * 65536 + data[0x13] as u64 * 16777216;
    if size1 != (data.len() - HEADER_SIZE) as u64 {
        let devs: Vec<Device> = Vec::new();
        assert(views(devs@) =~= Seq::<DeviceView>::empty());
        return devs;
    }
    let body = lossy_range(data, HEADER_SIZE, data.len());
    body_devices(from, body.as_slice())
}

} // verus!
