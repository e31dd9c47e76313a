//! CyberPower power devices (UDP 53566): the probe `11 00 00`, answered by
//! a stream of fields, most of it XORed with a one-byte key.
//!
//! Layout: magic, key, hash (length-prefixed string), two 32-bit words; then,
//! XORed with the key: a byte, the MAC, a byte, address, mask, gateway and
//! version words, the device name, location and user name (length-prefixed
//! strings), a byte and a word. Words are big-endian.

use vstd::prelude::*;
use crate::devices::{Device, DeviceView, views};
use crate::ip::IpAddr;
use crate::protocols::common::make_device;
use crate::text::{hex2, push_hex2, lossy_utf8, utf8_lossy, mac_chars, mac_chars_at};

verus! {

pub const PORT: u16 = 53566;

pub fn build_probe() -> (p: [u8; 3])
    ensures
        p@ == seq![0x11u8, 0, 0],
{
    let p = [0x11u8, 0, 0];
    assert(p@ =~= seq![0x11u8, 0, 0]);
    p
}

/// Where the XORed part starts: after magic, key, hash and two words.
pub open spec fn cp_body(d: Seq<u8>) -> int {
    3 + d[2] as int + 8
}

/// The stream in clear: bytes from the body start on XORed with the key.
pub open spec fn cp_clear(d: Seq<u8>) -> Seq<u8> {
    Seq::new(d.len(), |j: int| if j >= cp_body(d) { d[j] ^ d[1] } else { d[j] })
}

/// Where the name, location and user strings start, and where the stream
/// ends, in the clear stream `c` with body start `p`.
pub open spec fn cp_name_at(p: int) -> int {
    p + 24
}

pub open spec fn cp_loc_at(c: Seq<u8>, p: int) -> int {
    cp_name_at(p) + 1 + c[cp_name_at(p)] as int
}

pub open spec fn cp_user_at(c: Seq<u8>, p: int) -> int {
    cp_loc_at(c, p) + 1 + c[cp_loc_at(c, p)] as int
}

pub open spec fn cp_end(c: Seq<u8>, p: int) -> int {
    cp_user_at(c, p) + 1 + c[cp_user_at(c, p)] as int + 5
}

/// Whether the whole stream is present (each field read within the data).
pub open spec fn cp_complete(d: Seq<u8>) -> bool {
    let c = cp_clear(d);
    let p = cp_body(d);
    &&& d.len() >= 3
    &&& p <= d.len()
    &&& cp_name_at(p) + 1 <= d.len()
    &&& cp_loc_at(c, p) + 1 <= d.len()
    &&& cp_user_at(c, p) + 1 <= d.len()
    &&& cp_end(c, p) <= d.len()
}

/// The MAC as twelve upper-case hex digits.
pub open spec fn hex12(m: Seq<u8>) -> Seq<char> {
    hex2(m[0]) + hex2(m[1]) + hex2(m[2]) + hex2(m[3]) + hex2(m[4]) + hex2(m[5])
}

/// The device of a complete stream (whatever its magic): the address word,
/// the device name as type, the MAC as MAC column and (undelimited) serial.
pub open spec fn cyberpower_devices(d: Seq<u8>) -> Seq<DeviceView> {
    if !cp_complete(d) {
        Seq::empty()
    } else {
        let c = cp_clear(d);
        let p = cp_body(d);
        let m = c.subrange(p + 1, p + 7);
        seq![DeviceView {
            protocol: "CyberPower"@,
            version: 1,
            ip: IpAddr::V4(c[p + 8], c[p + 9], c[p + 10], c[p + 11]),
            mac: mac_chars(m),
            device_type: lossy_utf8(c.subrange(cp_name_at(p) + 1, cp_loc_at(c, p))),
            serial: hex12(m),
        }]
    }
}

pub fn parse(data: &[u8]) -> (devs: Vec<Device>)
    ensures
        views(devs@) == cyberpower_devices(data@),
{
    let mut out: Vec<Device> = Vec::new();
    let n = data.len();
    if n < 3 {
        return out;
    }
    let key = data[1];
    let p: usize = 3 + data[2] as usize;
    if p > n || n - p < 8 {
        assert(!cp_complete(data@));
        return out;
    }
    let p: usize = p + 8;
    let mut c: Vec<u8> = Vec::new();
    let mut j: usize = 0;
    while j < n
        invariant
            j <= n,
            n == data@.len(),
            key == data@[1],
            p as int == cp_body(data@),
            c@.len() == j,
            forall|k: int| 0 <= k < j ==> c@[k] == (if k >= p { data@[k] ^ key } else { data@[k] }),
        decreases n - j,
    {
        let b = if j >= p { data[j] ^ key } else { data[j] };
        c.push(b);
        j += 1;
    }
    assert(c@ =~= cp_clear(data@));
    if n - p < 25 {
        assert(!cp_complete(data@));
        return out;
    }
    let name_at = p + 24;
    let name_len = c[name_at] as usize;
    if n - name_at - 1 < name_len {
        assert(!cp_complete(data@));
        return out;
    }
    let loc_at = name_at + 1 + name_len;
    if loc_at >= n {
        assert(!cp_complete(data@));
        return out;
    }
    let loc_len = c[loc_at] as usize;
    if n - loc_at - 1 < loc_len {
        assert(!cp_complete(data@));
        return out;
    }
    let user_at = loc_at + 1 + loc_len;
    if user_at >= n {
        assert(!cp_complete(data@));
        return out;
    }
    let user_len = c[user_at] as usize;
    if n - user_at - 1 < user_len || n - user_at - 1 - user_len < 5 {
        assert(!cp_complete(data@));
        return out;
    }
    assert(cp_complete(data@));
    let ghost m = c@.subrange(p + 1, p + 7);
    let mac = mac_chars_at(c.as_slice(), p + 1);
    let mut serial: Vec<char> = Vec::new();
    let mut k: usize = 0;
    while k < 6
        invariant
            k <= 6,
            c@.len() == n,
            p + 7 <= n,
            m == c@.subrange(p + 1, p + 7),
            serial@ == (if k == 0 { Seq::<char>::empty() } else if k == 1 { hex2(m[0]) } else if k == 2 {
                hex2(m[0]) + hex2(m[1])
            } else if k == 3 {
                hex2(m[0]) + hex2(m[1]) + hex2(m[2])
            } else if k == 4 {
                hex2(m[0]) + hex2(m[1]) + hex2(m[2]) + hex2(m[3])
            } else if k == 5 {
                hex2(m[0]) + hex2(m[1]) + hex2(m[2]) + hex2(m[3]) + hex2(m[4])
            } else {
                hex12(m)
            }),
        decreases 6 - k,
    {
        push_hex2(&mut serial, c[p + 1 + k]);
        assert(m[k as int] == c@[p + 1 + k]);
        k += 1;
    }
    let name_bytes = crate::text::slice_vec(c.as_slice(), name_at + 1, loc_at);
    let name = utf8_lossy(name_bytes.as_slice());
    let ip = IpAddr::V4(c[p + 8], c[p + 9], c[p + 10], c[p + 11]);
    out.push(make_device("CyberPower", 1, ip, mac.as_slice(), name.as_slice(), serial.as_slice()));
    assert(views(out@) =~= cyberpower_devices(data@));
    out
}

} // verus!
