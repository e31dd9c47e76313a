//! VStarcam cameras (UDP 8600): a four-byte probe, a 256-byte answer.

use vstd::prelude::*;
use crate::devices::{Device, DeviceView, views};
use crate::ip::{IpAddr, ip_parse, parse_ip_chars};
use crate::protocols::common::{cstr, cstring, dev, make_device};

verus! {

pub const PORT: u16 = 8600;

/// The probe: `44 48 01 01`.
pub fn build_probe() -> (p: [u8; 4])
    ensures
        p@ == seq![0x44u8, 0x48, 0x01, 0x01],
{
    let p = [0x44u8, 0x48, 0x01, 0x01];
    assert(p@ =~= seq![0x44u8, 0x48, 0x01, 0x01]);
    p
}

/// The device an answer describes: an answer has at least 256 bytes and
/// starts with the magic `44 48 01 08`; the model is the text at 0x7C (32
/// bytes), the serial at 0x5C (32 bytes) and the address at 0x04 (16 bytes),
/// each up to its first NUL; an address that does not parse gives way to the
/// sender's.
pub open spec fn vstarcam_devices(from: IpAddr, d: Seq<u8>) -> Seq<DeviceView> {
    if d.len() < 256 || !(d[0] == 0x44 && d[1] == 0x48 && d[2] == 0x01 && d[3] == 0x08) {
        Seq::empty()
    } else {
        let ip = match ip_parse(cstr(d.subrange(0x04, 0x14))) {
            Some(a) => a,
            None => from,
        };
        seq![dev("VStarcam"@, 1, ip, cstr(d.subrange(0x7C, 0x9C)), cstr(d.subrange(0x5C, 0x7C)))]
    }
}

/// The devices of a reply from `from`.
pub fn parse(from: IpAddr, data: &[u8]) -> (devs: Vec<Device>)
    ensures
        views(devs@) == vstarcam_devices(from, data@),
{
    let mut out: Vec<Device> = Vec::new();
    if data.len() < 0x100 {
        return out;
    }
    if !(data[0] == 0x44 && data[1] == 0x48 && data[2] == 0x01 && data[3] == 0x08) {
        return out;
    }
    let model = cstring(data, 0x7C, 0x9C);
    let serial = cstring(data, 0x5C, 0x7C);
    let ipt = cstring(data, 0x04, 0x14);
    let ip = match parse_ip_chars(ipt.as_slice()) {
        Some(a) => a,
        None => from,
    };
    let no_mac: Vec<char> = Vec::new();
    out.push(make_device("VStarcam", 1, ip, no_mac.as_slice(), model.as_slice(), serial.as_slice()));
    assert(views(out@) =~= vstarcam_devices(from, data@));
    out
}

} // verus!
