//! Sony cameras (UDP 2380): `STX ENQ:allinfo 0xFF ETX`, answered by
//! `key:value` lines, each ended by 0xFF, between STX (0x02) and ETX (0x03).

use vstd::prelude::*;
use crate::devices::{Device, DeviceView, views};
use crate::ip::{IpAddr, ip_parse, parse_ip_chars};
use crate::protocols::common::{index_of, lemma_find_char_bounds, make_device, lit, chars_eq};
use crate::text::{find_char, lossy_utf8, utf8_lossy, lower_char, to_lower_char, slice_vec, trim, trim_exec};

verus! {

pub const PORT: u16 = 2380;

/// The probe: STX, `ENQ:allinfo`, 0xFF, ETX.
pub fn build_probe() -> (p: Vec<u8>)
    ensures
        p@ == seq![0x02u8, 0x45, 0x4e, 0x51, 0x3a, 0x61, 0x6c, 0x6c, 0x69, 0x6e, 0x66, 0x6f, 0xff, 0x03],
{
    let p: Vec<u8> = vec![0x02u8, 0x45, 0x4e, 0x51, 0x3a, 0x61, 0x6c, 0x6c, 0x69, 0x6e, 0x66, 0x6f, 0xff, 0x03];
    assert(p@ =~= seq![0x02u8, 0x45, 0x4e, 0x51, 0x3a, 0x61, 0x6c, 0x6c, 0x69, 0x6e, 0x66, 0x6f, 0xff, 0x03]);
    p
}

/// Index of the first 0xFF at or after `p`, or the length.
pub open spec fn eos_from(b: Seq<u8>, p: int) -> int
    decreases b.len() - p,
{
    if p < 0 || p >= b.len() {
        b.len() as int
    } else if b[p] == 0xFF {
        p
    } else {
        eos_from(b, p + 1)
    }
}

/// The lines from `p` on: the byte runs each ended by 0xFF (a last run
/// without 0xFF is not a line), decoded leniently.
pub open spec fn eos_lines(b: Seq<u8>, p: int) -> Seq<Seq<char>>
    decreases b.len() - p + 1,
{
    if p < 0 || p > b.len() {
        Seq::empty()
    } else {
        let k = eos_from(b, p);
        if k >= b.len() || k < p {
            Seq::empty()
        } else {
            seq![lossy_utf8(b.subrange(p, k))] + eos_lines(b, k + 1)
        }
    }
}

/// The values read so far.
pub struct SonyFields {
    pub model: Option<Seq<char>>,
    pub serial: Option<Seq<char>>,
    pub mac: Option<Seq<char>>,
    pub ip: Option<Seq<char>>,
}

pub open spec fn lower(s: Seq<char>) -> Seq<char> {
    s.map_values(|c: char| lower_char(c))
}

/// One line: with exactly one `:`, the key (lower-cased, trimmed) `model`,
/// `serial`, `mac` or `ipadr` takes the value (untrimmed); later lines win.
pub open spec fn sony_line(st: SonyFields, l: Seq<char>) -> SonyFields {
    match index_of(l, ':') {
        Some(i) => {
            let value = l.subrange(i + 1, l.len() as int);
            if index_of(value, ':') is None {
                let key = trim(lower(l.subrange(0, i)));
                if key == "model"@ {
                    SonyFields { model: Some(value), ..st }
                } else if key == "serial"@ {
                    SonyFields { serial: Some(value), ..st }
                } else if key == "mac"@ {
                    SonyFields { mac: Some(value), ..st }
                } else if key == "ipadr"@ {
                    SonyFields { ip: Some(value), ..st }
                } else {
                    st
                }
            } else {
                st
            }
        },
        None => st,
    }
}

pub open spec fn sony_lines(ls: Seq<Seq<char>>) -> SonyFields
    decreases ls.len(),
{
    if ls.len() == 0 {
        SonyFields { model: None, serial: None, mac: None, ip: None }
    } else {
        sony_line(sony_lines(ls.drop_last()), ls.last())
    }
}

/// The device of an answer from `from`: framed by STX and ETX, with `ipadr`
/// and `model` lines; the serial falls back to the MAC, then to `unkonwn`;
/// an address that does not parse gives way to the sender's.
pub open spec fn sony_devices(from: IpAddr, d: Seq<u8>) -> Seq<DeviceView> {
    if d.len() < 2 || d[0] != 0x02 || d.last() != 0x03 {
        Seq::empty()
    } else {
        let f = sony_lines(eos_lines(d.subrange(1, d.len() - 1), 0));
        match (f.ip, f.model) {
            (Some(ipt), Some(model)) => {
                let serial = match f.serial {
                    Some(s) => s,
                    None => match f.mac {
                        Some(m) => m,
                        None => "unkonwn"@,
                    },
                };
                let ip = match ip_parse(ipt) {
                    Some(a) => a,
                    None => from,
                };
                seq![DeviceView { protocol: "Sony"@, version: 1, ip, mac: Seq::empty(), device_type: model, serial }]
            },
            _ => Seq::empty(),
        }
    }
}

pub open spec fn opt_chars(o: Option<Vec<char>>) -> Option<Seq<char>> {
    match o {
        Some(v) => Some(v@),
        None => None,
    }
}

proof fn lemma_eos_bounds(b: Seq<u8>, p: int)
    requires
        0 <= p <= b.len(),
    ensures
        p <= eos_from(b, p) <= b.len(),
    decreases b.len() - p,
{
    if p < b.len() && b[p] != 0xFF {
        lemma_eos_bounds(b, p + 1);
    }
}

fn lower_exec(s: &[char]) -> (r: Vec<char>)
    ensures
        r@ == lower(s@),
{
    let mut r: Vec<char> = Vec::new();
    let mut i: usize = 0;
    while i < s.len()
        invariant
            i <= s@.len(),
            r@ == lower(s@.subrange(0, i as int)),
        decreases s@.len() - i,
    {
        r.push(to_lower_char(s[i]));
        i += 1;
        assert(r@ =~= lower(s@.subrange(0, i as int)));
    }
    assert(s@.subrange(0, s@.len() as int) =~= s@);
    r
}

pub fn parse(from: IpAddr, data: &[u8]) -> (devs: Vec<Device>)
    ensures
        views(devs@) == sony_devices(from, data@),
{
    let mut out: Vec<Device> = Vec::new();
    let n = data.len();
    if n < 2 || data[0] != 0x02 || data[n - 1] != 0x03 {
        return out;
    }
    let inner = slice_vec(data, 1, n - 1);
    let m = inner.len();
    let ghost lines = eos_lines(inner@, 0);
    let mut model: Option<Vec<char>> = None;
    let mut serial: Option<Vec<char>> = None;
    let mut mac: Option<Vec<char>> = None;
    let mut ipt: Option<Vec<char>> = None;
    let ghost mut done: Seq<Seq<char>> = Seq::empty();
    let mut p: usize = 0;
    let mut more = true;
    while more
        invariant
            p <= m,
            m == inner@.len(),
            lines == eos_lines(inner@, 0),
            more ==> lines == done + eos_lines(inner@, p as int),
            !more ==> lines == done,
            sony_lines(done) == (SonyFields { model: opt_chars(model), serial: opt_chars(serial), mac: opt_chars(mac), ip: opt_chars(ipt) }),
        decreases m - p + (if more { 1int } else { 0int }),
    {
        proof {
            lemma_eos_bounds(inner@, p as int);
        }
        let mut k = p;
        while k < m && inner[k] != 0xFF
            invariant
                p <= k <= m,
                m == inner@.len(),
                eos_from(inner@, k as int) == eos_from(inner@, p as int),
            decreases m - k,
        {
            k += 1;
        }
        if k >= m {
            more = false;
            assert(eos_lines(inner@, p as int) =~= Seq::<Seq<char>>::empty());
            assert(done + Seq::<Seq<char>>::empty() =~= done);
        } else {
            let seg = slice_vec(inner.as_slice(), p, k);
            let l = utf8_lossy(seg.as_slice());
            proof {
                assert(eos_lines(inner@, p as int) =~= seq![l@] + eos_lines(inner@, k + 1));
                assert((done.push(l@)).drop_last() =~= done);
            }
            proof {
                lemma_find_char_bounds(l@, ':', 0);
            }
            let ln = l.len();
            match find_char(l.as_slice(), ':', 0) {
                Some(i) => {
                    let value = slice_vec(l.as_slice(), i + 1, ln);
                    proof {
                        lemma_find_char_bounds(value@, ':', 0);
                    }
                    if find_char(value.as_slice(), ':', 0).is_none() {
                        let head = slice_vec(l.as_slice(), 0, i);
                        let lk = lower_exec(head.as_slice());
                        let key = trim_exec(lk.as_slice());
                        if chars_eq(key.as_slice(), lit("model").as_slice()) {
                            model = Some(value);
                        } else if chars_eq(key.as_slice(), lit("serial").as_slice()) {
                            serial = Some(value);
                        } else if chars_eq(key.as_slice(), lit("mac").as_slice()) {
                            mac = Some(value);
                        } else if chars_eq(key.as_slice(), lit("ipadr").as_slice()) {
                            ipt = Some(value);
                        }
                    }
                },
                None => {},
            }
            proof {
                done = done.push(l@);
                assert(lines =~= done + eos_lines(inner@, k + 1));
            }
            p = k + 1;
        }
    }
    match (ipt, model) {
        (Some(it), Some(md)) => {
            let s = match serial {
                Some(s) => s,
                None => match mac {
                    Some(mm) => mm,
                    None => lit("unkonwn"),
                },
            };
            let ip = match parse_ip_chars(it.as_slice()) {
                Some(a) => a,
                None => from,
            };
            let no_mac: Vec<char> = Vec::new();
            out.push(make_device("Sony", 1, ip, no_mac.as_slice(), md.as_slice(), s.as_slice()));
        },
        _ => {},
    }
    proof {
        assert(inner@ == data@.subrange(1, data@.len() - 1));
    }
    assert(views(out@) =~= sony_devices(from, data@));
    out
}

} // verus!
