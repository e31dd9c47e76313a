//! Vivotek (UDP 10000 broadcast) discovery: a 5-byte request and TLV replies.

use vstd::prelude::*;
use crate::devices::{Device, DeviceView, views};
use crate::ip::{IpAddr, v6_of_bytes, v6_from_bytes};
use crate::text::{lossy_utf8, mac_chars, mac_chars_at};
use crate::protocols::common::{make_device, lossy_range};

verus! {

pub const PORT: u16 = 10000;
pub const HEADER_SIZE: usize = 5;

/// The request: a session byte and the magic 0x4A5D8F1C (big-endian).
pub open spec fn request(session: u8) -> Seq<u8> {
    seq![session, 0x4Au8, 0x5D, 0x8F, 0x1C]
}

/// Session counter of the requests (starts at 1, wraps).
pub struct Vivotek {
    session: u8,
}

impl Vivotek {
    pub closed spec fn next_session(&self) -> u8 {
        self.session
    }

    pub fn new() -> (v: Vivotek)
        ensures
            v.next_session() == 1,
    {
        Vivotek { session: 1 }
    }

    /// The next request; the session byte advances (wrapping).
    pub fn build_probe(&mut self) -> (p: Vec<u8>)
        ensures
            p@ == request(old(self).next_session()),
            final(self).next_session() == (if old(self).next_session() == 255 { 0 } else { (old(self).next_session() + 1) as u8 }),
    {
        let s = self.session;
        self.session = if s == 255 { 0 } else { s + 1 };
        let mut p: Vec<u8> = Vec::new();
        p.push(s);
        p.push(0x4A);
        p.push(0x5D);
        p.push(0x8F);
        p.push(0x1C);
        assert(p@ =~= request(s));
        p
    }
}

/// Fields collected from the TLV records: MAC text, model, address.
pub struct Fields {
    pub mac: Seq<char>,
    pub model: Seq<char>,
    pub ip: Option<IpAddr>,
}

/// One record at `pos` (type byte, size byte, value): the position after it
/// and the updated fields, or `None` when the whole reply is dropped: a
/// record header past the end, a value past the end, a null type (0), an
/// address that is neither 4 nor 16 bytes, or a MAC shorter than 6 bytes.
/// Type 4 has no value (its size byte is all there is); type 2 is the MAC,
/// 3 the address, 9 the model; other types are skipped.
pub open spec fn step(d: Seq<u8>, pos: int, f: Fields) -> Option<(int, Fields)> {
    if pos + 2 >= d.len() {
        None
    } else {
        let t = d[pos];
        let size = d[pos + 1] as int;
        let p = pos + 2;
        if t == 4 {
            Some((p, f))
        } else if p + size > d.len() {
            None
        } else {
            let v = d.subrange(p, p + size);
            let np = p + size;
            if t == 0 {
                None
            } else if t == 3 {
                if size == 4 {
                    Some((np, Fields { ip: Some(IpAddr::V4(v[0], v[1], v[2], v[3])), ..f }))
                } else if size == 16 {
                    Some((np, Fields { ip: Some(v6_of_bytes(v)), ..f }))
                } else {
                    None
                }
            } else if t == 2 {
                if size < 6 {
                    None
                } else {
                    Some((np, Fields { mac: mac_chars(v), ..f }))
                }
            } else if t == 9 {
                Some((np, Fields { model: lossy_utf8(v), ..f }))
            } else {
                Some((np, f))
            }
        }
    }
}

/// Walks the records from `pos` to the end.
pub open spec fn walk(d: Seq<u8>, pos: int, f: Fields) -> Option<Fields>
    decreases d.len() - pos,
{
    if pos < 0 || pos >= d.len() {
        Some(f)
    } else {
        match step(d, pos, f) {
            None => None,
            Some((np, g)) => if np <= pos { None } else { walk(d, np, g) },
        }
    }
}

/// What a reply reports: nothing unless it is at least the 5-byte header
/// with the magic and its records walk cleanly to an address; then one
/// entry with that address, the model, and the MAC as serial.
pub open spec fn vivotek_devices(d: Seq<u8>) -> Seq<DeviceView> {
    if d.len() < 5 || !(d[1] == 0x4A && d[2] == 0x5D && d[3] == 0x8F && d[4] == 0x1C) {
        Seq::empty()
    } else {
        match walk(d, 5, Fields { mac: Seq::empty(), model: Seq::empty(), ip: None }) {
            Some(f) => match f.ip {
                Some(ip) => seq![DeviceView {
                    protocol: "Vivotek"@,
                    version: 1,
                    ip,
                    mac: f.mac,
                    device_type: f.model,
                    serial: f.mac,
                }],
                None => Seq::empty(),
            },
            None => Seq::empty(),
        }
    }
}

fn step_exec(data: &[u8], pos: usize, mac: Vec<char>, model: Vec<char>, ip: Option<IpAddr>) -> (r: Option<(usize, Vec<char>, Vec<char>, Option<IpAddr>)>)
    requires
        pos < data@.len(),
    ensures
        match r {
            Some((np, m, md, a)) => step(data@, pos as int, Fields { mac: mac@, model: model@, ip })
                == Some((np as int, Fields { mac: m@, model: md@, ip: a })) && pos < np,
            None => step(data@, pos as int, Fields { mac: mac@, model: model@, ip }) is None,
        },
{
    let len = data.len();
    if len - pos <= 2 {
        return None;
    }
    let t = data[pos];
    let size = data[pos + 1] as usize;
    let p = pos + 2;
    if t == 4 {
        return Some((p, mac, model, ip));
    }
    if size > len - p {
        return None;
    }
    let np = p + size;
    if t == 0 {
        None
    } else if t == 3 {
        if size == 4 {
            Some((np, mac, model, Some(IpAddr::V4(data[p], data[p + 1], data[p + 2], data[p + 3]))))
        } else if size == 16 {
            let v = crate::text::slice_vec(data, p, np);
            Some((np, mac, model, Some(v6_from_bytes(v.as_slice()))))
        } else {
            None
        }
    } else if t == 2 {
        if size < 6 {
            None
        } else {
            let m = mac_chars_at(data, p);
            proof {
                let v = data@.subrange(p as int, p + size);
                assert(mac_chars(v) =~= mac_chars(data@.subrange(p as int, p + 6)));
            }
            Some((np, m, model, ip))
        }
    } else if t == 9 {
        Some((np, mac, lossy_range(data, p, np), ip))
    } else {
        Some((np, mac, model, ip))
    }
}

/// Parses a reply.
pub fn parse(data: &[u8]) -> (devs: Vec<Device>)
    ensures
        views(devs@) == vivotek_devices(data@),
{
    let mut devs: Vec<Device> = Vec::new();
    if data.len() < HEADER_SIZE || !(data[1] == 0x4A && data[2] == 0x5D && data[3] == 0x8F && data[4] == 0x1C) {
        assert(views(devs@) =~= Seq::<DeviceView>::empty());
        return devs;
    }
    let ghost d = data@;
    let ghost init = Fields { mac: Seq::empty(), model: Seq::empty(), ip: None };
    let mut mac: Vec<char> = Vec::new();
    let mut model: Vec<char> = Vec::new();
    let mut ip: Option<IpAddr> = None;
    let mut pos: usize = HEADER_SIZE;
    assert(init == Fields { mac: Seq::<char>::empty(), model: Seq::<char>::empty(), ip: None::<IpAddr> });
    let len = data.len();
    while pos < len
        invariant
            len == data@.len(),
            d == data@,
            HEADER_SIZE <= pos,
            devs@.len() == 0,
            data@.len() >= 5 && data@[1] == 0x4A && data@[2] == 0x5D && data@[3] == 0x8F && data@[4] == 0x1C,
            walk(d, pos as int, Fields { mac: mac@, model: model@, ip }) == walk(d, 5, init),
            init == (Fields { mac: Seq::<char>::empty(), model: Seq::<char>::empty(), ip: None::<IpAddr> }),
        decreases len - pos,
    {
        match step_exec(data, pos, mac, model, ip) {
            None => {
                assert(walk(d, 5, init) is None);
                assert(walk(d, 5, Fields { mac: Seq::<char>::empty(), model: Seq::<char>::empty(), ip: None::<IpAddr> }) is None);
                assert(!(d.len() < 5 || !(d[1] == 0x4A && d[2] == 0x5D && d[3] == 0x8F && d[4] == 0x1C)));
                assert(vivotek_devices(d) =~= Seq::<DeviceView>::empty());
                assert(views(devs@) =~= Seq::<DeviceView>::empty());
                return devs;
            },
            Some((np, m, md, a)) => {
                pos = np;
                mac = m;
                model = md;
                ip = a;
            },
        }
    }
    assert(walk(d, pos as int, Fields { mac: mac@, model: model@, ip }) == Some(Fields { mac: mac@, model: model@, ip }));
    match ip {
        Some(a) => {
            devs.push(make_device("Vivotek", 1, a, mac.as_slice(), model.as_slice(), mac.as_slice()));
        },
        None => {},
    }
    assert(views(devs@) =~= vivotek_devices(data@));
    devs
}

/// A reply reports at most one device, and only when it carries the magic
/// after the session byte; the device is a `Vivotek` one of version 1 whose
/// serial is its MAC text.
pub proof fn law_vivotek_reports(d: Seq<u8>)
    ensures
        vivotek_devices(d).len() <= 1,
        vivotek_devices(d).len() == 1 ==> d.len() >= 5 && d[1] == 0x4A && d[2] == 0x5D && d[3] == 0x8F && d[4] == 0x1C,
        vivotek_devices(d).len() == 1 ==> vivotek_devices(d)[0].protocol == "Vivotek"@ && vivotek_devices(d)[0].version == 1
            && vivotek_devices(d)[0].serial == vivotek_devices(d)[0].mac,
{
}

/// Whether the walk from `pos` steps onto a record starting at `k`.
pub open spec fn walk_reaches(d: Seq<u8>, pos: int, f: Fields, k: int) -> bool
    decreases d.len() - pos,
{
    if pos == k {
        true
    } else if pos < 0 || pos >= d.len() || pos > k {
        false
    } else {
        match step(d, pos, f) {
            None => false,
            Some((np, g)) => np > pos && walk_reaches(d, np, g, k),
        }
    }
}

/// A record at `k` that drops the reply whatever was read before it: its
/// header runs past the end; or (unless it is type 4, which has no value)
/// its value runs past the end, its type is null (0), it is an address of
/// neither 4 nor 16 bytes, or a MAC shorter than 6 bytes.
pub open spec fn bad_record(d: Seq<u8>, k: int) -> bool {
    k + 2 >= d.len() || (d[k] != 4 && {
        let size = d[k + 1] as int;
        ||| k + 2 + size > d.len()
        ||| d[k] == 0
        ||| (d[k] == 3 && size != 4 && size != 16)
        ||| (d[k] == 2 && size < 6)
    })
}

proof fn lemma_bad_record_step(d: Seq<u8>, k: int, f: Fields)
    requires
        0 <= k,
        bad_record(d, k),
    ensures
        step(d, k, f) is None,
{
}

proof fn lemma_walk_bad(d: Seq<u8>, pos: int, f: Fields, k: int)
    requires
        0 <= pos <= k,
        k < d.len(),
        bad_record(d, k),
        walk_reaches(d, pos, f, k),
    ensures
        walk(d, pos, f) is None,
    decreases d.len() - pos,
{
    if pos < k {
        let (np, g) = step(d, pos, f)->0;
        assert(walk_reaches(d, np, g, k));
        assert(np <= k);
        lemma_walk_bad(d, np, g, k);
    } else {
        lemma_bad_record_step(d, k, f);
    }
}

proof fn lemma_walk_no_address(d: Seq<u8>, pos: int, f: Fields)
    requires
        0 <= pos,
        f.ip is None,
        forall|k: int| #[trigger] walk_reaches(d, pos, f, k) && k < d.len() ==> d[k] != 3,
    ensures
        walk(d, pos, f) matches Some(g) ==> g.ip is None,
    decreases d.len() - pos,
{
    if pos < d.len() {
        assert(walk_reaches(d, pos, f, pos));
        match step(d, pos, f) {
            Some((np, g)) => {
                if np > pos {
                    assert forall|k: int| #[trigger] walk_reaches(d, np, g, k) && k < d.len() implies d[k] != 3 by {
                        if k >= np {
                            assert(walk_reaches(d, pos, f, k));
                        }
                    }
                    assert(g.ip is None);
                    lemma_walk_no_address(d, np, g);
                }
            },
            None => {},
        }
    }
}

/// The start of the record walk of a reply.
pub open spec fn walk_start() -> Fields {
    Fields { mac: Seq::empty(), model: Seq::empty(), ip: None }
}

/// A reply is dropped when its record walk steps onto a bad record (see
/// `bad_record`), or when no record it steps onto is an address (type 3);
/// a type-4 record is only its two header bytes.
pub proof fn law_vivotek_drops(d: Seq<u8>, k: int, f: Fields)
    ensures
        5 <= k < d.len() && bad_record(d, k) && walk_reaches(d, 5, walk_start(), k)
            ==> vivotek_devices(d) == Seq::<DeviceView>::empty(),
        (forall|j: int| #[trigger] walk_reaches(d, 5, walk_start(), j) && j < d.len() ==> d[j] != 3)
            ==> vivotek_devices(d) == Seq::<DeviceView>::empty(),
        0 <= k && k + 2 < d.len() && d[k] == 4 ==> step(d, k, f) == Some((k + 2, f)),
{
    assert(walk_start() == Fields { mac: Seq::<char>::empty(), model: Seq::<char>::empty(), ip: None });
    if 5 <= k < d.len() && bad_record(d, k) && walk_reaches(d, 5, walk_start(), k) {
        lemma_walk_bad(d, 5, walk_start(), k);
    }
    if forall|j: int| #[trigger] walk_reaches(d, 5, walk_start(), j) && j < d.len() ==> d[j] != 3 {
        lemma_walk_no_address(d, 5, walk_start());
    }
}

} // verus!
