//! Foscam cameras (UDP 10000): a 27-byte `MO_I` probe, an 87-byte answer
//! whose body may be XOR-ciphered with an 8-byte key from the header.

use vstd::prelude::*;
use crate::devices::{Device, DeviceView, views};
use crate::ip::IpAddr;
use crate::protocols::common::{cstr, cstring, make_device};
use crate::text::{decimal, push_decimal, slice_vec};

verus! {

pub const PORT: u16 = 10000;

pub open spec fn foscam_probe() -> Seq<u8> {
    seq![0x4Du8, 0x4F, 0x5F, 0x49, 0, 0, 0, 0, 0, 0, 0, 0, 0, 0, 0, 0x04, 0, 0, 0, 0, 0, 0, 0, 0, 0, 0, 0x01]
}

pub fn build_probe() -> (p: [u8; 27])
    ensures
        p@ == foscam_probe(),
{
    let p = [0x4Du8, 0x4F, 0x5F, 0x49, 0, 0, 0, 0, 0, 0, 0, 0, 0, 0, 0, 0x04, 0, 0, 0, 0, 0, 0, 0, 0, 0, 0, 0x01];
    assert(p@ =~= foscam_probe());
    p
}

/// Byte `j` of the answer in clear: when the cipher flag (byte 6) is set,
/// body bytes (from 0x17 on) are XORed with the key bytes 7..15 in turn.
pub open spec fn clear_byte(d: Seq<u8>, j: int) -> u8 {
    if d[6] != 0 && j >= 0x17 {
        d[j] ^ d[7 + (j - 0x17) % 8]
    } else {
        d[j]
    }
}

pub open spec fn clear_bytes(d: Seq<u8>) -> Seq<u8> {
    Seq::new(d.len(), |j: int| clear_byte(d, j))
}

/// The device of an answer (at least 87 bytes, magic `MO_I`): serial the C
/// string at 0x17, address the four bytes at 0x39, type `Type n` for the
/// byte at 0x49, all read in clear.
pub open spec fn foscam_devices(d: Seq<u8>) -> Seq<DeviceView> {
    if d.len() < 0x57 || !(d[0] == 0x4D && d[1] == 0x4F && d[2] == 0x5F && d[3] == 0x49) {
        Seq::empty()
    } else {
        let c = clear_bytes(d);
        seq![DeviceView {
            protocol: "Foscam"@,
            version: 1,
            ip: IpAddr::V4(c[0x39], c[0x3A], c[0x3B], c[0x3C]),
            mac: Seq::empty(),
            device_type: "Type "@ + decimal(c[0x49] as nat),
            serial: cstr(c.subrange(0x17, 0x24)),
        }]
    }
}

pub fn parse(data: &[u8]) -> (devs: Vec<Device>)
    ensures
        views(devs@) == foscam_devices(data@),
{
    let mut out: Vec<Device> = Vec::new();
    let n = data.len();
    if n < 0x57 || !(data[0] == 0x4D && data[1] == 0x4F && data[2] == 0x5F && data[3] == 0x49) {
        return out;
    }
    let mut c: Vec<u8> = Vec::new();
    let mut j: usize = 0;
    while j < n
        invariant
            j <= n,
            n == data@.len(),
            n >= 0x57,
            c@.len() == j,
            forall|k: int| 0 <= k < j ==> c@[k] == clear_byte(data@, k),
        decreases n - j,
    {
        let b = if data[6] != 0 && j >= 0x17 { data[j] ^ data[7 + (j - 0x17) % 8] } else { data[j] };
        c.push(b);
        j += 1;
    }
    assert(c@ =~= clear_bytes(data@));
    let serial = cstring(c.as_slice(), 0x17, 0x24);
    let ip = IpAddr::V4(c[0x39], c[0x3A], c[0x3B], c[0x3C]);
    let mut ty: Vec<char> = vec!['T', 'y', 'p', 'e', ' '];
    proof {
        reveal_strlit("Type ");
        assert(ty@ =~= "Type "@);
    }
    push_decimal(&mut ty, c[0x49] as u64);
    let no_mac: Vec<char> = Vec::new();
    out.push(make_device("Foscam", 1, ip, no_mac.as_slice(), ty.as_slice(), serial.as_slice()));
    assert(views(out@) =~= foscam_devices(data@));
    out
}

} // verus!
