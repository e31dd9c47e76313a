//! Arecont Vision cameras, announced over mDNS under `_arec._tcp.local`.

use vstd::prelude::*;
use crate::config::Config;
use crate::devices::{Device, DeviceView, views};
use crate::ip::IpAddr;
use crate::mdns::{MdnsAnswer, MdnsData, MdnsDataView, answer_data, string_views, devices_at, reported_addrs, report_addresses};
use crate::protocols::axis::opt_chars;
use crate::protocols::common::{index_of, lemma_find_char_bounds, cut_at, cut_at_exec, lit};
use crate::text::{find_char, str_chars, string_from_chars, slice_vec, trim, trim_exec};

verus! {

/// The Arecont engine.
pub struct Arecont;

impl Arecont {
    pub fn name(&self) -> (r: &'static str)
        ensures
            r@ == "Arecont"@,
    {
        "Arecont"
    }

    /// The service domain the engine queries and listens for.
    pub fn domain(&self) -> (r: &'static str)
        ensures
            r@ == "_arec._tcp.local"@,
    {
        "_arec._tcp.local"
    }

    /// How many queries one scan sends, and the pause between them in milliseconds.
    pub fn sweep(&self) -> (r: (u32, u64))
        ensures
            r == (4u32, 750u64),
    {
        (4, 750)
    }

    /// The colour of the engine's rows (`0xRRGGBB`).
    pub fn color(&self) -> (r: u32)
        ensures
            r == 0x00008B,
    {
        0x00008B
    }
}

/// The key of the TXT variable that carries the MAC.
pub open spec fn mac_key() -> Seq<char> {
    seq!['M', 'A', 'C']
}

/// One TXT string `name=value`: the first `MAC` variable of the reply is kept.
pub open spec fn mac_entry(mac: Option<Seq<char>>, e: Seq<char>) -> Option<Seq<char>> {
    match index_of(e, '=') {
        Some(i) => if mac is None && e.subrange(0, i) == mac_key() {
            Some(e.subrange(i + 1, e.len() as int))
        } else {
            mac
        },
        None => mac,
    }
}

pub open spec fn mac_entries(mac: Option<Seq<char>>, t: Seq<Seq<char>>) -> Option<Seq<char>>
    decreases t.len(),
{
    if t.len() == 0 {
        mac
    } else {
        mac_entry(mac_entries(mac, t.drop_last()), t.last())
    }
}

/// What the answers of one reply have given so far.
pub struct ArecState {
    pub addrs: Seq<IpAddr>,
    pub model: Option<Seq<char>>,
    pub mac: Option<Seq<char>>,
}

/// One answer: addresses accumulate; the first PTR gives the model (its name
/// up to the first `.`); TXT strings are read as variables, the first of a
/// name winning.
pub open spec fn arec_step(st: ArecState, d: MdnsDataView) -> ArecState {
    match d {
        MdnsDataView::A(ip) => ArecState { addrs: st.addrs.push(ip), model: st.model, mac: st.mac },
        MdnsDataView::AAAA(ip) => ArecState { addrs: st.addrs.push(ip), model: st.model, mac: st.mac },
        MdnsDataView::Ptr(n) => if st.model is None {
            ArecState { addrs: st.addrs, model: Some(cut_at(n, '.')), mac: st.mac }
        } else {
            st
        },
        MdnsDataView::Txt(t) => ArecState { addrs: st.addrs, model: st.model, mac: mac_entries(st.mac, t) },
        MdnsDataView::Other => st,
    }
}

pub open spec fn arec_walk(d: Seq<MdnsDataView>) -> ArecState
    decreases d.len(),
{
    if d.len() == 0 {
        ArecState { addrs: Seq::empty(), model: None, mac: None }
    } else {
        arec_step(arec_walk(d.drop_last()), d.last())
    }
}

/// Every `AV` replaced by `001A07`, left to right.
pub open spec fn replace_av(s: Seq<char>) -> Seq<char>
    decreases s.len(),
{
    if s.len() < 2 {
        s
    } else if s[0] == 'A' && s[1] == 'V' {
        seq!['0', '0', '1', 'A', '0', '7'] + replace_av(s.subrange(2, s.len() as int))
    } else {
        seq![s[0]] + replace_av(s.subrange(1, s.len() as int))
    }
}

/// The model after the name rule: cut before the first `-` and trimmed.
pub open spec fn arec_name_model(m0: Seq<char>) -> Seq<char> {
    match index_of(m0, '-') {
        Some(p) => trim(m0.subrange(0, p)),
        None => m0,
    }
}

/// The serial the name gives: the trimmed text after its first `-`.
pub open spec fn arec_name_serial(m0: Seq<char>) -> Option<Seq<char>> {
    match index_of(m0, '-') {
        Some(p) => Some(trim(m0.subrange(p + 1, m0.len() as int))),
        None => None,
    }
}

/// The model after the `MAC` variable: a `/` in it makes the model `AV`
/// followed by what comes after the `/`; then, when the name gave no
/// serial, a `-` in it makes the model the text before that `-`.
pub open spec fn arec_mac_model(model: Seq<char>, mac: Option<Seq<char>>, has_serial: bool) -> Seq<char> {
    match mac {
        None => model,
        Some(v) => {
            let m1 = match index_of(v, '/') {
                Some(s) => seq!['A', 'V'] + v.subrange(s + 1, v.len() as int),
                None => model,
            };
            if !has_serial {
                match index_of(v, '-') {
                    Some(d) => v.subrange(0, d),
                    None => m1,
                }
            } else {
                m1
            }
        },
    }
}

/// The devices of one reply: none without an address; otherwise the model
/// defaults to `unknown` and goes through the name and `MAC` rules above, and
/// the serial is the name's, with `AV` replaced by `001A07`, or empty.
pub open spec fn arec_devices(d: Seq<MdnsDataView>, cfg: Config) -> Seq<DeviceView> {
    let st = arec_walk(d);
    if st.addrs.len() == 0 {
        Seq::empty()
    } else {
        let m0 = match st.model {
            Some(m) => m,
            None => "unknown"@,
        };
        let serial = arec_name_serial(m0);
        let model = arec_mac_model(arec_name_model(m0), st.mac, serial is Some);
        let serial_text = match serial {
            Some(s) => replace_av(s),
            None => Seq::empty(),
        };
        devices_at("Arecont"@, 1, reported_addrs(st.addrs, cfg), model, serial_text)
    }
}

fn replace_av_exec(s: &[char]) -> (r: Vec<char>)
    ensures
        r@ == replace_av(s@),
{
    let n = s.len();
    let mut out: Vec<char> = Vec::new();
    let mut i: usize = 0;
    assert(s@.subrange(0, n as int) =~= s@);
    while i < n
        invariant
            n == s@.len(),
            i <= n,
            out@ + replace_av(s@.subrange(i as int, n as int)) == replace_av(s@),
        decreases n - i,
    {
        let ghost rest = s@.subrange(i as int, n as int);
        if i + 1 < n && s[i] == 'A' && s[i + 1] == 'V' {
            out.push('0');
            out.push('0');
            out.push('1');
            out.push('A');
            out.push('0');
            out.push('7');
            proof {
                assert(rest.subrange(2, rest.len() as int) =~= s@.subrange(i + 2, n as int));
            }
            i += 2;
        } else {
            if i + 1 < n {
                proof {
                    assert(rest.subrange(1, rest.len() as int) =~= s@.subrange(i + 1, n as int));
                }
                out.push(s[i]);
                i += 1;
            } else {
                let ghost before = out@;
                out.push(s[i]);
                proof {
                    assert(rest =~= seq![s@[i as int]]);
                    assert(s@.subrange(i + 1, n as int) =~= Seq::<char>::empty());
                }
                i += 1;
            }
        }
    }
    proof {
        assert(s@.subrange(n as int, n as int) =~= Seq::<char>::empty());
    }
    out
}

fn read_mac_txt(mac: &mut Option<Vec<char>>, t: &Vec<String>)
    ensures
        opt_chars(*final(mac)) == mac_entries(opt_chars(*old(mac)), string_views(t@)),
{
    let ghost start = opt_chars(*mac);
    let ghost ts = string_views(t@);
    let mut i: usize = 0;
    while i < t.len()
        invariant
            i <= t@.len(),
            ts == string_views(t@),
            opt_chars(*mac) == mac_entries(start, ts.subrange(0, i as int)),
        decreases t@.len() - i,
    {
        proof {
            assert(ts.subrange(0, i + 1).drop_last() =~= ts.subrange(0, i as int));
        }
        let e = str_chars(t[i].as_str());
        proof {
            lemma_find_char_bounds(e@, '=', 0);
        }
        match find_char(e.as_slice(), '=', 0) {
            Some(k) => {
                if mac.is_none() {
                    let is_mac = k == 3 && e[0] == 'M' && e[1] == 'A' && e[2] == 'C';
                    if is_mac {
                        assert(e@.subrange(0, k as int) =~= mac_key());
                        let n = e.len();
                        *mac = Some(slice_vec(e.as_slice(), k + 1, n));
                    } else {
                        proof {
                            let h = e@.subrange(0, k as int);
                            if h == mac_key() {
                                assert(h.len() == 3);
                                assert(h[0] == 'M' && h[1] == 'A' && h[2] == 'C');
                                assert(h[0] == e@[0] && h[1] == e@[1] && h[2] == e@[2]);
                            }
                        }
                    }
                }
            },
            None => {},
        }
        i += 1;
    }
    proof {
        assert(ts.subrange(0, t@.len() as int) =~= ts);
    }
}

/// The devices an Arecont mDNS reply announces.
pub fn arecont_convert(answers: &[MdnsAnswer], cfg: &Config) -> (devs: Vec<Device>)
    ensures
        views(devs@) == arec_devices(answer_data(answers@), *cfg),
{
    let ghost data = answer_data(answers@);
    let mut addrs: Vec<IpAddr> = Vec::new();
    let mut model: Option<Vec<char>> = None;
    let mut mac: Option<Vec<char>> = None;
    let mut i: usize = 0;
    while i < answers.len()
        invariant
            i <= answers@.len(),
            data == answer_data(answers@),
            arec_walk(data.subrange(0, i as int)) == (ArecState { addrs: addrs@, model: opt_chars(model), mac: opt_chars(mac) }),
        decreases answers@.len() - i,
    {
        proof {
            assert(data.subrange(0, i + 1).drop_last() =~= data.subrange(0, i as int));
            assert(data.subrange(0, i + 1).last() == answers@[i as int].data@);
        }
        match &answers[i].data {
            MdnsData::A(ip) => {
                addrs.push(*ip);
            },
            MdnsData::AAAA(ip) => {
                addrs.push(*ip);
            },
            MdnsData::Ptr(n) => {
                if model.is_none() {
                    let c = str_chars(n.as_str());
                    model = Some(cut_at_exec(c.as_slice(), '.'));
                }
            },
            MdnsData::Txt(t) => {
                read_mac_txt(&mut mac, t);
            },
            MdnsData::Other => {},
        }
        i += 1;
    }
    proof {
        assert(data.subrange(0, answers@.len() as int) =~= data);
    }
    if addrs.len() == 0 {
        return Vec::new();
    }
    let m0: Vec<char> = match model {
        Some(m) => m,
        None => lit("unknown"),
    };
    proof {
        lemma_find_char_bounds(m0@, '-', 0);
    }
    let n0 = m0.len();
    let (mut name_model, serial): (Vec<char>, Option<Vec<char>>) = match find_char(m0.as_slice(), '-', 0) {
        Some(p) => {
            let head = slice_vec(m0.as_slice(), 0, p);
            let tail = slice_vec(m0.as_slice(), p + 1, n0);
            (trim_exec(head.as_slice()), Some(trim_exec(tail.as_slice())))
        },
        None => (m0, None),
    };
    assert(name_model@ == arec_name_model(m0@));
    assert(opt_chars(serial) == arec_name_serial(m0@));
    if let Some(v) = mac {
        proof {
            lemma_find_char_bounds(v@, '/', 0);
            lemma_find_char_bounds(v@, '-', 0);
        }
        let vn = v.len();
        let mut m1 = name_model;
        match find_char(v.as_slice(), '/', 0) {
            Some(s) => {
                let mut av: Vec<char> = Vec::new();
                av.push('A');
                av.push('V');
                let mut k = s + 1;
                while k < vn
                    invariant
                        vn == v@.len(),
                        s + 1 <= k <= vn,
                        av@ == seq!['A', 'V'] + v@.subrange(s + 1, k as int),
                    decreases vn - k,
                {
                    av.push(v[k]);
                    k += 1;
                    assert(av@ =~= seq!['A', 'V'] + v@.subrange(s + 1, k as int));
                }
                m1 = av;
            },
            None => {},
        }
        if serial.is_none() {
            match find_char(v.as_slice(), '-', 0) {
                Some(d) => {
                    m1 = slice_vec(v.as_slice(), 0, d);
                },
                None => {},
            }
        }
        name_model = m1;
    }
    let serial_text: Vec<char> = match serial {
        Some(s) => replace_av_exec(s.as_slice()),
        None => Vec::new(),
    };
    let model_s = string_from_chars(name_model.as_slice());
    let serial_s = string_from_chars(serial_text.as_slice());
    report_addresses("Arecont", 1, addrs.as_slice(), model_s.as_str(), serial_s.as_str(), cfg)
}

} // verus!
