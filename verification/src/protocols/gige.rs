//! GigE Vision cameras (UDP 3956): an 8-byte discovery command, a 256-byte
//! acknowledgement.

use vstd::prelude::*;
use crate::devices::{Device, DeviceView, views};
use crate::ip::IpAddr;
use crate::protocols::common::{cstr, cstring, make_device, lit};
use crate::text::{mac_chars, mac_chars_at};

verus! {

pub const PORT: u16 = 3956;

/// The discovery engine; each probe carries the next request number.
pub struct GigEVision {
    pub request_counter: u32,
}

/// The discovery command with request number `id`: `42 11`, command 2
/// (big-endian), payload length 0, then the id (little-endian).
pub open spec fn discovery_cmd(id: int) -> Seq<u8> {
    seq![0x42u8, 0x11, 0x00, 0x02, 0x00, 0x00, (id % 256) as u8, (id / 256) as u8]
}

impl GigEVision {
    pub fn new() -> (g: Self)
        ensures
            g.request_counter == 0,
    {
        GigEVision { request_counter: 0 }
    }

    /// The next probe: the counter moves on by one (wrapping) and its low
    /// 16 bits are the request number.
    pub fn next_probe(&mut self) -> (p: [u8; 8])
        ensures
            final(self).request_counter == (old(self).request_counter as int + 1) % 0x1_0000_0000,
            p@ == discovery_cmd(final(self).request_counter as int % 65536),
    {
        self.request_counter = if self.request_counter == u32::MAX { 0 } else { self.request_counter + 1 };
        let id: u32 = self.request_counter % 65536;
        let p = [0x42u8, 0x11, 0x00, 0x02, 0x00, 0x00, (id % 256) as u8, (id / 256) as u8];
        assert(p@ =~= discovery_cmd(self.request_counter as int % 65536));
        p
    }
}

/// A C string field, or `dflt` when it is empty.
pub open spec fn or_else(s: Seq<char>, dflt: Seq<char>) -> Seq<char> {
    if s.len() == 0 {
        dflt
    } else {
        s
    }
}

/// The device of an acknowledgement from `from`: exactly 256 bytes whose
/// payload length (big-endian at 4) is 248. The address is the four bytes at
/// 0x2C in reverse order unless all zero (then the sender's); the MAC is at
/// 0x12; the protocol column is the manufacturer (0x50, else `GigEVision`),
/// the type the model (0x70, else the user name at 0xF0), the serial the
/// serial number (0xE0, else the MAC); version 0.
pub open spec fn gige_devices(from: IpAddr, d: Seq<u8>) -> Seq<DeviceView> {
    if d.len() != 256 || !(d[4] == 0 && d[5] == 248) {
        Seq::empty()
    } else {
        let ip = if d[0x2C] == 0 && d[0x2D] == 0 && d[0x2E] == 0 && d[0x2F] == 0 {
            from
        } else {
            IpAddr::V4(d[0x2F], d[0x2E], d[0x2D], d[0x2C])
        };
        let mac = mac_chars(d.subrange(0x12, 0x18));
        seq![DeviceView {
            protocol: or_else(cstr(d.subrange(0x50, 0x70)), "GigEVision"@),
            version: 0,
            ip,
            mac,
            device_type: or_else(cstr(d.subrange(0x70, 0x90)), cstr(d.subrange(0xF0, 0x100))),
            serial: or_else(cstr(d.subrange(0xE0, 0xF0)), mac),
        }]
    }
}

pub fn parse(from: IpAddr, data: &[u8]) -> (devs: Vec<Device>)
    ensures
        views(devs@) == gige_devices(from, data@),
{
    let mut out: Vec<Device> = Vec::new();
    if data.len() != 256 || !(data[4] == 0 && data[5] == 248) {
        return out;
    }
    let ip = if data[0x2C] == 0 && data[0x2D] == 0 && data[0x2E] == 0 && data[0x2F] == 0 {
        from
    } else {
        IpAddr::V4(data[0x2F], data[0x2E], data[0x2D], data[0x2C])
    };
    let mac = mac_chars_at(data, 0x12);
    let mut serial = cstring(data, 0xE0, 0xF0);
    if serial.len() == 0 {
        serial = mac_chars_at(data, 0x12);
    }
    let mut vendor = cstring(data, 0x50, 0x70);
    if vendor.len() == 0 {
        vendor = lit("GigEVision");
    }
    let mut model = cstring(data, 0x70, 0x90);
    if model.len() == 0 {
        model = cstring(data, 0xF0, 0x100);
    }
    let proto = crate::text::string_from_chars(vendor.as_slice());
    out.push(Device::new(proto, 0, ip, crate::text::string_from_chars(mac.as_slice()),
        crate::text::string_from_chars(model.as_slice()), crate::text::string_from_chars(serial.as_slice())));
    assert(views(out@) =~= gige_devices(from, data@));
    out
}

} // verus!
