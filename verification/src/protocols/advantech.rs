//! Advantech cameras (UDP 5048): a 60-byte `MADA` probe, answered by a
//! header and, for a product-type message, the model text.

use vstd::prelude::*;
use crate::devices::{Device, DeviceView, views};
use crate::ip::IpAddr;
use crate::protocols::common::{make_device, lit};
use crate::text::{lossy_utf8, utf8_lossy, mac_chars, mac_chars_at, slice_vec};

verus! {

pub const PORT: u16 = 5048;

/// The probe: `MADA`, 0x83 at 7, 0x01 at 8, 0x50 at 10, 0x20 at 0x35, zeros elsewhere.
pub open spec fn advantech_probe() -> Seq<u8> {
    Seq::new(60, |i: int| if i == 0 {
        0x4du8
    } else if i == 1 {
        0x41u8
    } else if i == 2 {
        0x44u8
    } else if i == 3 {
        0x41u8
    } else if i == 7 {
        0x83u8
    } else if i == 8 {
        0x01u8
    } else if i == 10 {
        0x50u8
    } else if i == 0x35 {
        0x20u8
    } else {
        0u8
    })
}

pub fn build_probe() -> (p: [u8; 60])
    ensures
        p@ == advantech_probe(),
{
    let p = [
        0x4du8, 0x41, 0x44, 0x41, 0x00, 0x00, 0x00, 0x83, 0x01, 0x00, 0x50, 0x00, 0x00, 0x00, 0x00, 0x00, 0x00,
        0x00, 0x00, 0x00, 0x00, 0x00, 0x00, 0x00, 0x00, 0x00, 0x00, 0x00, 0x00, 0x00, 0x00, 0x00, 0x00, 0x00,
        0x00, 0x00, 0x00, 0x00, 0x00, 0x00, 0x00, 0x00, 0x00, 0x00, 0x00, 0x00, 0x00, 0x00, 0x00, 0x00, 0x00,
        0x00, 0x00, 0x20, 0x00, 0x00, 0x00, 0x00, 0x00, 0x00,
    ];
    assert(p@ =~= advantech_probe());
    p
}

/// The device of an answer from `from` (at least 106 bytes): the MAC (also
/// the serial) at 0x0D; the model is the text after byte 106 when the
/// message type at 0x35 is 0x20 (product type), else `Unknown`.
pub open spec fn advantech_devices(from: IpAddr, d: Seq<u8>) -> Seq<DeviceView> {
    if d.len() < 0x6A {
        Seq::empty()
    } else {
        let mac = mac_chars(d.subrange(0x0D, 0x13));
        seq![DeviceView {
            protocol: "Advantech"@,
            version: 1,
            ip: from,
            mac,
            device_type: if d[0x35] == 0x20 { lossy_utf8(d.subrange(0x6A, d.len() as int)) } else { "Unknown"@ },
            serial: mac,
        }]
    }
}

pub fn parse(from: IpAddr, data: &[u8]) -> (devs: Vec<Device>)
    ensures
        views(devs@) == advantech_devices(from, data@),
{
    let mut out: Vec<Device> = Vec::new();
    let n = data.len();
    if n < 0x6A {
        return out;
    }
    let mac = mac_chars_at(data, 0x0D);
    let model = if data[0x35] == 0x20 {
        let b = slice_vec(data, 0x6A, n);
        utf8_lossy(b.as_slice())
    } else {
        lit("Unknown")
    };
    out.push(make_device("Advantech", 1, from, mac.as_slice(), model.as_slice(), mac.as_slice()));
    assert(views(out@) =~= advantech_devices(from, data@));
    out
}

} // verus!
