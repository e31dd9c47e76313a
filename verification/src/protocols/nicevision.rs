//! NiceVision devices: a 12-byte `NICE` request to UDP 2007, a 90-byte answer.

use vstd::prelude::*;
use crate::devices::{Device, DeviceView, views};
use crate::ip::IpAddr;
use crate::protocols::common::{cstr, cstring, make_device};
use crate::text::{mac_chars, mac_chars_at};

verus! {

pub const REQUEST_PORT: u16 = 2007;

/// The discovery engine; each request carries the next transaction number.
pub struct NiceVision {
    pub transaction_id: u16,
}

/// The request with transaction `tx`: `NICE`, the transaction (big-endian),
/// the payload 0x01080000, two zero bytes.
pub open spec fn nice_request(tx: u16) -> Seq<u8> {
    seq![0x4Eu8, 0x49, 0x43, 0x45, (tx / 256) as u8, (tx % 256) as u8, 0x01, 0x08, 0x00, 0x00, 0x00, 0x00]
}

pub fn build_probe(tx: u16) -> (p: [u8; 12])
    ensures
        p@ == nice_request(tx),
{
    let p = [0x4Eu8, 0x49, 0x43, 0x45, (tx / 256) as u8, (tx % 256) as u8, 0x01, 0x08, 0x00, 0x00, 0x00, 0x00];
    assert(p@ =~= nice_request(tx));
    p
}

impl NiceVision {
    pub fn new() -> (n: Self)
        ensures
            n.transaction_id == 0,
    {
        NiceVision { transaction_id: 0 }
    }

    /// The next request: the transaction number moves on by one (wrapping).
    pub fn next_probe(&mut self) -> (p: [u8; 12])
        ensures
            final(self).transaction_id == (old(self).transaction_id as int + 1) % 65536,
            p@ == nice_request(final(self).transaction_id),
    {
        self.transaction_id = if self.transaction_id == u16::MAX { 0 } else { self.transaction_id + 1 };
        build_probe(self.transaction_id)
    }
}

/// The device of an answer (at least 90 bytes): MAC (also the serial) at
/// 0x0A, address the four bytes at 0x10 in reverse order, type the C string at 0x4A.
pub open spec fn nicevision_devices(d: Seq<u8>) -> Seq<DeviceView> {
    if d.len() < 0x5A {
        Seq::empty()
    } else {
        let mac = mac_chars(d.subrange(0x0A, 0x10));
        seq![DeviceView {
            protocol: "NiceVision"@,
            version: 1,
            ip: IpAddr::V4(d[0x13], d[0x12], d[0x11], d[0x10]),
            mac,
            device_type: cstr(d.subrange(0x4A, 0x5A)),
            serial: mac,
        }]
    }
}

pub fn parse(data: &[u8]) -> (devs: Vec<Device>)
    ensures
        views(devs@) == nicevision_devices(data@),
{
    let mut out: Vec<Device> = Vec::new();
    if data.len() < 0x5A {
        return out;
    }
    let mac = mac_chars_at(data, 0x0A);
    let ty = cstring(data, 0x4A, 0x5A);
    let ip = IpAddr::V4(data[0x13], data[0x12], data[0x11], data[0x10]);
    out.push(make_device("NiceVision", 1, ip, mac.as_slice(), ty.as_slice(), mac.as_slice()));
    assert(views(out@) =~= nicevision_devices(data@));
    out
}

} // verus!
