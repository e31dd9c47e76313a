//! Dahua (first generation, UDP 5050 broadcast) discovery replies.

use vstd::prelude::*;
use crate::devices::{Device, DeviceView, views};
use crate::ip::{IpAddr, ip_parse, parse_ip_chars};
use crate::text::{lossy_utf8, str_chars};
use crate::protocols::common::{
    cstr, cstring, cut_at, cut_at_exec, dev, last_value, last_value_exec, lossy_range, make_device,
    split_lines, text_lines,
};

verus! {

pub const PORT: u16 = 5050;
pub const ANSWER_MAGIC: u8 = 0xb3;
pub const SECTION1_LEN: usize = 0x78;
pub const MAC_MAX: usize = 17;

/// The discovery request.
pub open spec fn discover_bytes() -> Seq<u8> {
    seq![0xa3u8, 0x01, 0x00, 0x01, 0, 0, 0, 0, 0, 0, 0, 0, 0, 0, 0, 0,
         0x02, 0, 0, 0, 0, 0, 0, 0, 0, 0, 0, 0, 0, 0, 0, 0]
}

pub fn build_probe() -> (p: Vec<u8>)
    ensures
        p@ == discover_bytes(),
{
    let mut p: Vec<u8> = Vec::new();
    let mut i: usize = 0;
    while i < 32
        invariant
            i <= 32,
            p@.len() == i,
            forall|j: int| 0 <= j < i ==> p@[j] == discover_bytes()[j],
        decreases 32 - i,
    {
        let b: u8 = if i == 0 { 0xa3 } else if i == 1 || i == 3 { 0x01 } else if i == 16 { 0x02 } else { 0 };
        p.push(b);
        i += 1;
    }
    assert(p@ =~= discover_bytes());
    p
}

/// The reply's own IPv4 address (section 1, offset 0x38, wire order), or the
/// sender's address when that field is zero.
pub open spec fn reply_ip(from: IpAddr, d: Seq<u8>) -> IpAddr {
    if d[0x38] == 0 && d[0x39] == 0 && d[0x3a] == 0 && d[0x3b] == 0 {
        from
    } else {
        IpAddr::V4(d[0x38], d[0x39], d[0x3a], d[0x3b])
    }
}

/// The entries a valid reply yields from its fields: one with the reply
/// address (serial overridden by the last `SerialNo` line), and a
/// version-2 one when the last `IPv6Addr` line, cut at `;` then `/`, parses.
pub open spec fn dahua1_entries(ip: IpAddr, model: Seq<char>, serial0: Seq<char>, lines: Seq<Seq<char>>) -> Seq<DeviceView> {
    let serial = match last_value(lines, "SerialNo"@) {
        Some(v) => v,
        None => serial0,
    };
    let first = dev("Dahua"@, 1, ip, model, serial);
    match last_value(lines, "IPv6Addr"@) {
        Some(v6) => match ip_parse(cut_at(cut_at(v6, ';'), '/')) {
            Some(ip6) => seq![first, dev("Dahua"@, 2, ip6, model, serial)],
            None => seq![first],
        },
        None => seq![first],
    }
}

/// Whether the packet is a well-formed reply: at least section 1 (0x78
/// bytes, magic 0xb3), with the section-2 length (byte 2) and section-3
/// length (LE16 at 0x14) adding up to the packet length.
pub open spec fn dahua1_valid(d: Seq<u8>) -> bool {
    d.len() >= 0x78 && d[0] == 0xb3 && 0x78 + d[2] as int + (d[0x14] as int + d[0x15] as int * 256) == d.len()
}

/// Section 2 length capped at the MAC text size.
pub open spec fn mac_size(d: Seq<u8>) -> int {
    if (d[2] as int) < 17 { d[2] as int } else { 17 }
}

/// The model: the rest of section 2 after the MAC text when there is one,
/// else the device-type field of section 1.
pub open spec fn dahua1_model(d: Seq<u8>) -> Seq<char> {
    if d[2] as int > mac_size(d) {
        lossy_utf8(d.subrange(0x78 + mac_size(d), 0x78 + d[2] as int))
    } else {
        cstr(d.subrange(0x28, 0x38))
    }
}

/// The `key:value` lines of section 3.
pub open spec fn dahua1_lines(d: Seq<u8>) -> Seq<Seq<char>> {
    if d[0x14] as int + d[0x15] as int * 256 > 0 {
        text_lines(lossy_utf8(d.subrange(0x78 + d[2] as int, d.len() as int)))
    } else {
        Seq::empty()
    }
}

/// What a reply reports: nothing unless it is well formed; otherwise the
/// entries built from its address, model, MAC text and section-3 lines.
pub open spec fn dahua1_devices(from: IpAddr, d: Seq<u8>) -> Seq<DeviceView> {
    if !dahua1_valid(d) {
        Seq::empty()
    } else {
        dahua1_entries(
            reply_ip(from, d),
            dahua1_model(d),
            lossy_utf8(d.subrange(0x78, 0x78 + mac_size(d))),
            dahua1_lines(d),
        )
    }
}

fn entries(ip: IpAddr, model: &Vec<char>, serial0: Vec<char>, lines: &Vec<Vec<char>>) -> (devs: Vec<Device>)
    ensures
        views(devs@) == dahua1_entries(ip, model@, serial0@, crate::protocols::common::char_views(lines@)),
{
    let ghost glines = crate::protocols::common::char_views(lines@);
    let serial_key = str_chars("SerialNo");
    let serial = match last_value_exec(lines, serial_key.as_slice()) {
        Some(v) => v,
        None => serial0,
    };
    let no_mac: Vec<char> = Vec::new();
    let first = make_device("Dahua", 1, ip, no_mac.as_slice(), model.as_slice(), serial.as_slice());
    let mut devs: Vec<Device> = Vec::new();
    devs.push(first);
    let v6_key = str_chars("IPv6Addr");
    match last_value_exec(lines, v6_key.as_slice()) {
        Some(v6) => {
            let a = cut_at_exec(v6.as_slice(), ';');
            let b = cut_at_exec(a.as_slice(), '/');
            match parse_ip_chars(b.as_slice()) {
                Some(ip6) => {
                    let second = make_device("Dahua", 2, ip6, no_mac.as_slice(), model.as_slice(), serial.as_slice());
                    devs.push(second);
                    assert(views(devs@) =~= dahua1_entries(ip, model@, serial0@, glines));
                },
                None => {
                    assert(views(devs@) =~= dahua1_entries(ip, model@, serial0@, glines));
                },
            }
        },
        None => {
            assert(views(devs@) =~= dahua1_entries(ip, model@, serial0@, glines));
        },
    }
    devs
}

/// Parses a reply.
pub fn parse(from: IpAddr, data: &[u8]) -> (devs: Vec<Device>)
    ensures
        views(devs@) == dahua1_devices(from, data@),
{
    if data.len() < SECTION1_LEN || data[0] != ANSWER_MAGIC {
        let devs: Vec<Device> = Vec::new();
        assert(views(devs@) =~= Seq::<DeviceView>::empty());
        return devs;
    }
    let s2 = data[2] as usize;
    let s3 = data[0x14] as usize + data[0x15] as usize * 256;
    if SECTION1_LEN + s2 + s3 != data.len() {
        let devs: Vec<Device> = Vec::new();
        assert(views(devs@) =~= Seq::<DeviceView>::empty());
        return devs;
    }
    let ip = if data[0x38] == 0 && data[0x39] == 0 && data[0x3a] == 0 && data[0x3b] == 0 {
        from
    } else {
        IpAddr::V4(data[0x38], data[0x39], data[0x3a], data[0x3b])
    };
    let mac_size = if s2 < MAC_MAX { s2 } else { MAC_MAX };
    let serial0 = lossy_range(data, SECTION1_LEN, SECTION1_LEN + mac_size);
    let model = if s2 > mac_size {
        lossy_range(data, SECTION1_LEN + mac_size, SECTION1_LEN + s2)
    } else {
        cstring(data, 0x28, 0x38)
    };
    let lines: Vec<Vec<char>> = if s3 > 0 {
        let text = lossy_range(data, SECTION1_LEN + s2, data.len());
        split_lines(text.as_slice())
    } else {
        Vec::new()
    };
    assert(crate::protocols::common::char_views(lines@) =~= dahua1_lines(data@));
    entries(ip, &model, serial0, &lines)
}

/// A reply is reported exactly when it is well formed (at least 0x78
/// bytes, magic 0xb3, section lengths adding up to its length); it then
/// yields one or two entries: first a `Dahua` one of version 1 at the
/// reply's own IPv4 address (the sender's when that field is zero), then
/// possibly a version-2 one.
pub proof fn law_dahua1_reports(from: IpAddr, d: Seq<u8>)
    ensures
        (dahua1_devices(from, d).len() > 0) == dahua1_valid(d),
        dahua1_devices(from, d).len() <= 2,
        dahua1_valid(d) ==> {
            let r = dahua1_devices(from, d);
            &&& r[0].protocol == "Dahua"@
            &&& r[0].version == 1
            &&& r[0].ip == (if d[0x38] == 0 && d[0x39] == 0 && d[0x3a] == 0 && d[0x3b] == 0 {
                from
            } else {
                IpAddr::V4(d[0x38], d[0x39], d[0x3a], d[0x3b])
            })
            &&& r.len() == 2 ==> r[1].version == 2
        },
{
}

} // verus!
