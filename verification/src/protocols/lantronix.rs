//! Lantronix device servers and Vauban controllers (UDP 30718): a four-byte
//! probe, a 30-byte reply.

use vstd::prelude::*;
use crate::devices::{Device, DeviceView, views};
use crate::ip::IpAddr;
use crate::protocols::common::{make_device, lit};
use crate::text::{mac_chars, mac_chars_at};

verus! {

pub const PORT: u16 = 30718;

/// The probe: `00 00 00 F6`.
pub fn build_probe() -> (p: [u8; 4])
    ensures
        p@ == seq![0u8, 0, 0, 0xF6],
{
    let p = [0u8, 0, 0, 0xF6];
    assert(p@ =~= seq![0u8, 0, 0, 0xF6]);
    p
}

/// Protocol and model of a reply: magic 0x15 with firmware 2.x (x below 10)
/// is a Vauban `Verso+` (`Verso+ 2` or `Verso+ 4` for x = 2 or 4); magic
/// 0x13 an older Vauban; anything else a Lantronix.
pub open spec fn lantronix_kind(d: Seq<u8>) -> (Seq<char>, Seq<char>) {
    if d[2] == 0x15 && d[0x0C] == 2 && d[0x0D] < 10 {
        ("Vauban"@, if d[0x0D] == 2 {
            "Verso+ 2"@
        } else if d[0x0D] == 4 {
            "Verso+ 4"@
        } else {
            "Verso+"@
        })
    } else if d[2] == 0x13 {
        ("Vauban"@, "unknown"@)
    } else {
        ("Lantronix"@, "unknown"@)
    }
}

/// The device of a reply from `from`: exactly 30 bytes with 0xF7 at 3; the
/// MAC (also the serial) is the six bytes at 0x18.
pub open spec fn lantronix_devices(from: IpAddr, d: Seq<u8>) -> Seq<DeviceView> {
    if d.len() != 0x1E || d[3] != 0xF7 {
        Seq::empty()
    } else {
        let mac = mac_chars(d.subrange(0x18, 0x1E));
        seq![DeviceView {
            protocol: lantronix_kind(d).0,
            version: 1,
            ip: from,
            mac,
            device_type: lantronix_kind(d).1,
            serial: mac,
        }]
    }
}

pub fn parse(from: IpAddr, data: &[u8]) -> (devs: Vec<Device>)
    ensures
        views(devs@) == lantronix_devices(from, data@),
{
    let mut out: Vec<Device> = Vec::new();
    if data.len() != 0x1E || data[3] != 0xF7 {
        return out;
    }
    let mac = mac_chars_at(data, 0x18);
    let (protocol, model): (&str, &str) = if data[2] == 0x15 && data[0x0C] == 2 && data[0x0D] < 10 {
        ("Vauban", if data[0x0D] == 2 {
            "Verso+ 2"
        } else if data[0x0D] == 4 {
            "Verso+ 4"
        } else {
            "Verso+"
        })
    } else if data[2] == 0x13 {
        ("Vauban", "unknown")
    } else {
        ("Lantronix", "unknown")
    };
    out.push(make_device(protocol, 1, from, mac.as_slice(), lit(model).as_slice(), mac.as_slice()));
    assert(views(out@) =~= lantronix_devices(from, data@));
    out
}

/// Only a 30-byte reply with 0xF7 at offset 3 is reported, as one device of
/// version 1 at the sender, whose serial and MAC are the upper-case text of
/// the six bytes at 0x18; it is named a Vauban `Verso+` (with ` 2` or ` 4`
/// for firmware 2.2 or 2.4) for magic 0x15 and firmware 2.x below 2.10, an
/// older Vauban (`unknown` model) for magic 0x13, else a Lantronix
/// (`unknown` model).
pub proof fn law_lantronix_naming(from: IpAddr, d: Seq<u8>)
    ensures
        (d.len() != 30 || d[3] != 0xF7) ==> lantronix_devices(from, d) == Seq::<DeviceView>::empty(),
        !(d.len() != 30 || d[3] != 0xF7) ==> {
            let r = lantronix_devices(from, d);
            &&& r.len() == 1
            &&& r[0].ip == from && r[0].version == 1
            &&& r[0].mac == mac_chars(d.subrange(0x18, 0x1E)) && r[0].serial == r[0].mac
            &&& (d[2] == 0x15 && d[0x0C] == 2 && d[0x0D] < 10) ==> r[0].protocol == "Vauban"@ && r[0].device_type == (
                if d[0x0D] == 2 { "Verso+ 2"@ } else if d[0x0D] == 4 { "Verso+ 4"@ } else { "Verso+"@ })
            &&& !(d[2] == 0x15 && d[0x0C] == 2 && d[0x0D] < 10) && d[2] == 0x13
                ==> r[0].protocol == "Vauban"@ && r[0].device_type == "unknown"@
            &&& !(d[2] == 0x15 && d[0x0C] == 2 && d[0x0D] < 10) && d[2] != 0x13
                ==> r[0].protocol == "Lantronix"@ && r[0].device_type == "unknown"@
        },
{
}

} // verus!
