//! Microchip and GCE devices (UDP 30303): the probe `Discover GCE Devices`,
//! answered by text lines.

use vstd::prelude::*;
use vstd::utf8::{valid_utf8, decode_utf8};
use crate::devices::{Device, DeviceView, views};
use crate::ip::IpAddr;
use crate::protocols::common::{split_on, split_exec, char_views, chars_eq, make_device, lit};
use crate::text::{trim, trim_exec, utf8_strict};

verus! {

pub const PORT: u16 = 30303;

/// The probe text, which answers echo back.
pub open spec fn probe_text() -> Seq<char> {
    "Discover GCE Devices"@
}

/// The probe's bytes (ASCII): `Discover GCE Devices`.
pub open spec fn probe_bytes() -> Seq<u8> {
    seq![0x44u8, 0x69, 0x73, 0x63, 0x6f, 0x76, 0x65, 0x72, 0x20, 0x47, 0x43, 0x45, 0x20, 0x44, 0x65, 0x76, 0x69, 0x63, 0x65, 0x73]
}

pub fn build_probe() -> (p: Vec<u8>)
    ensures
        p@ == probe_bytes(),
{
    let p: Vec<u8> = vec![0x44u8, 0x69, 0x73, 0x63, 0x6f, 0x76, 0x65, 0x72, 0x20, 0x47, 0x43, 0x45, 0x20, 0x44, 0x65, 0x76, 0x69, 0x63, 0x65, 0x73];
    assert(p@ =~= probe_bytes());
    p
}

/// Line ends unified: `\r\n` and a lone `\r` both become `\n`.
pub open spec fn unify_breaks(s: Seq<char>) -> Seq<char>
    decreases s.len(),
{
    if s.len() == 0 {
        s
    } else if s[0] == '\r' && s.len() >= 2 && s[1] == '\n' {
        seq!['\n'] + unify_breaks(s.subrange(2, s.len() as int))
    } else if s[0] == '\r' {
        seq!['\n'] + unify_breaks(s.subrange(1, s.len() as int))
    } else {
        seq![s[0]] + unify_breaks(s.subrange(1, s.len() as int))
    }
}

/// The device of an answer from `from`. Bytes that are not UTF-8 give an
/// `Unknown` Microchip with an empty serial; the probe's echo gives none;
/// otherwise, by lines: four or more make a `GCE` (type line 4, serial
/// line 2), two or three a `Microchip` (type line 1, serial line 2), each
/// trimmed; fewer give none.
pub open spec fn microchip_devices(from: IpAddr, d: Seq<u8>) -> Seq<DeviceView> {
    if !valid_utf8(d) {
        seq![DeviceView { protocol: "Microchip"@, version: 1, ip: from, mac: Seq::empty(), device_type: "Unknown"@, serial: Seq::empty() }]
    } else {
        let t = decode_utf8(d);
        if t == probe_text() {
            Seq::empty()
        } else {
            let lines = split_on(unify_breaks(t), '\n');
            if lines.len() >= 4 {
                seq![DeviceView { protocol: "GCE"@, version: 1, ip: from, mac: Seq::empty(), device_type: trim(lines[3]), serial: trim(lines[1]) }]
            } else if lines.len() >= 2 {
                seq![DeviceView { protocol: "Microchip"@, version: 1, ip: from, mac: Seq::empty(), device_type: trim(lines[0]), serial: trim(lines[1]) }]
            } else {
                Seq::empty()
            }
        }
    }
}

fn unify_breaks_exec(s: &[char]) -> (r: Vec<char>)
    ensures
        r@ == unify_breaks(s@),
{
    let n = s.len();
    let mut out: Vec<char> = Vec::new();
    let mut i: usize = 0;
    assert(s@.subrange(0, n as int) =~= s@);
    while i < n
        invariant
            i <= n,
            n == s@.len(),
            out@ + unify_breaks(s@.subrange(i as int, n as int)) == unify_breaks(s@),
        decreases n - i,
    {
        let ghost rest = s@.subrange(i as int, n as int);
        if s[i] == '\r' && i + 1 < n && s[i + 1] == '\n' {
            out.push('\n');
            assert(rest.subrange(2, rest.len() as int) =~= s@.subrange(i + 2, n as int));
            i += 2;
        } else {
            if s[i] == '\r' {
                out.push('\n');
            } else {
                out.push(s[i]);
            }
            assert(rest.subrange(1, rest.len() as int) =~= s@.subrange(i + 1, n as int));
            i += 1;
        }
    }
    assert(s@.subrange(n as int, n as int) =~= Seq::<char>::empty());
    out
}

pub fn parse(from: IpAddr, data: &[u8]) -> (devs: Vec<Device>)
    ensures
        views(devs@) == microchip_devices(from, data@),
{
    let mut out: Vec<Device> = Vec::new();
    let no_mac: Vec<char> = Vec::new();
    let t = match utf8_strict(data) {
        Some(t) => t,
        None => {
            out.push(make_device("Microchip", 1, from, no_mac.as_slice(), lit("Unknown").as_slice(), no_mac.as_slice()));
            assert(views(out@) =~= microchip_devices(from, data@));
            return out;
        },
    };
    if chars_eq(t.as_slice(), lit("Discover GCE Devices").as_slice()) {
        return out;
    }
    let u = unify_breaks_exec(t.as_slice());
    let lines = split_exec(u.as_slice(), '\n');
    proof {
        assert(char_views(lines@).len() == lines@.len());
    }
    if lines.len() >= 4 {
        let ty = trim_exec(lines[3].as_slice());
        let sn = trim_exec(lines[1].as_slice());
        out.push(make_device("GCE", 1, from, no_mac.as_slice(), ty.as_slice(), sn.as_slice()));
    } else if lines.len() >= 2 {
        let ty = trim_exec(lines[0].as_slice());
        let sn = trim_exec(lines[1].as_slice());
        out.push(make_device("Microchip", 1, from, no_mac.as_slice(), ty.as_slice(), sn.as_slice()));
    }
    assert(views(out@) =~= microchip_devices(from, data@));
    out
}

} // verus!
