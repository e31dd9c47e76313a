//! Axis cameras, announced over mDNS under `_axis-nvr._tcp.local` and
//! `_axis-video._tcp.local`.

use vstd::prelude::*;
use crate::config::Config;
use crate::devices::{Device, DeviceView, views};
use crate::ip::IpAddr;
use crate::mdns::{MdnsAnswer, MdnsData, MdnsDataView, answer_data, devices_at, reported_addrs, report_addresses};
use crate::protocols::common::{cut_at, cut_at_exec, after_first, after_first_exec, find_sub, find_sub_exec, lemma_find_sub_bounds, lit};
use crate::text::{str_chars, string_from_chars, slice_vec, trim, trim_exec};

verus! {

/// The Axis engine.
pub struct Axis;

impl Axis {
    pub fn name(&self) -> (r: &'static str)
        ensures
            r@ == "Axis"@,
    {
        "Axis"
    }

    /// The service domains the engine queries and listens for.
    pub fn domains(&self) -> (r: Vec<&'static str>)
        ensures
            r@.len() == 2,
            r@[0]@ == "_axis-nvr._tcp.local"@,
            r@[1]@ == "_axis-video._tcp.local"@,
    {
        let mut r: Vec<&'static str> = Vec::new();
        r.push("_axis-nvr._tcp.local");
        r.push("_axis-video._tcp.local");
        r
    }

    /// The colour of the engine's rows (`0xRRGGBB`).
    pub fn color(&self) -> (r: u32)
        ensures
            r == 0x806000,
    {
        0x806000
    }
}

/// What the answers of one reply have given so far.
pub struct AxisState {
    pub addrs: Seq<IpAddr>,
    pub model: Option<Seq<char>>,
    pub serial: Option<Seq<char>>,
}

/// One answer: addresses accumulate; the first PTR gives the model (its name
/// up to the first `.`); the first TXT gives the serial (its first string,
/// after the first `=` when there is one). A first TXT with no strings drops
/// the whole reply (`None`).
pub open spec fn axis_step(st: AxisState, d: MdnsDataView) -> Option<AxisState> {
    match d {
        MdnsDataView::A(ip) => Some(AxisState { addrs: st.addrs.push(ip), model: st.model, serial: st.serial }),
        MdnsDataView::AAAA(ip) => Some(AxisState { addrs: st.addrs.push(ip), model: st.model, serial: st.serial }),
        MdnsDataView::Ptr(n) => if st.model is None {
            Some(AxisState { addrs: st.addrs, model: Some(cut_at(n, '.')), serial: st.serial })
        } else {
            Some(st)
        },
        MdnsDataView::Txt(t) => if st.serial is None {
            if t.len() == 0 {
                None
            } else {
                Some(AxisState { addrs: st.addrs, model: st.model, serial: Some(after_first(t[0], '=')) })
            }
        } else {
            Some(st)
        },
        MdnsDataView::Other => Some(st),
    }
}

/// The answers taken in order.
pub open spec fn axis_walk(d: Seq<MdnsDataView>) -> Option<AxisState>
    decreases d.len(),
{
    if d.len() == 0 {
        Some(AxisState { addrs: Seq::empty(), model: None, serial: None })
    } else {
        match axis_walk(d.drop_last()) {
            Some(st) => axis_step(st, d.last()),
            None => None,
        }
    }
}

/// The separator between model and MAC in an Axis service name.
pub open spec fn name_sep() -> Seq<char> {
    seq![' ', '-', ' ']
}

/// The devices of one reply: none when it was dropped or holds no address;
/// otherwise the model defaults to `unknown`, and when it holds ` - ` it is
/// cut before it (trimmed) and, if no TXT gave a serial, the serial is the
/// trimmed text after it; the serial defaults to `unknown`.
pub open spec fn axis_devices(d: Seq<MdnsDataView>, cfg: Config) -> Seq<DeviceView> {
    match axis_walk(d) {
        None => Seq::empty(),
        Some(st) => if st.addrs.len() == 0 {
            Seq::empty()
        } else {
            let m0 = match st.model {
                Some(m) => m,
                None => "unknown"@,
            };
            let model = match find_sub(m0, name_sep(), 0) {
                Some(p) => trim(m0.subrange(0, p)),
                None => m0,
            };
            let serial = match st.serial {
                Some(s) => s,
                None => match find_sub(m0, name_sep(), 0) {
                    Some(p) => trim(m0.subrange(p + 3, m0.len() as int)),
                    None => "unknown"@,
                },
            };
            devices_at("Axis"@, 1, reported_addrs(st.addrs, cfg), model, serial)
        },
    }
}

pub open spec fn opt_chars(o: Option<Vec<char>>) -> Option<Seq<char>> {
    match o {
        Some(v) => Some(v@),
        None => None,
    }
}

/// The devices an Axis mDNS reply announces.
pub fn axis_convert(answers: &[MdnsAnswer], cfg: &Config) -> (devs: Vec<Device>)
    ensures
        views(devs@) == axis_devices(answer_data(answers@), *cfg),
{
    let ghost data = answer_data(answers@);
    let mut addrs: Vec<IpAddr> = Vec::new();
    let mut model: Option<Vec<char>> = None;
    let mut serial: Option<Vec<char>> = None;
    let mut dropped = false;
    let mut i: usize = 0;
    while i < answers.len()
        invariant
            i <= answers@.len(),
            data == answer_data(answers@),
            dropped ==> axis_walk(data.subrange(0, i as int)) is None,
            !dropped ==> axis_walk(data.subrange(0, i as int)) == Some(
                AxisState { addrs: addrs@, model: opt_chars(model), serial: opt_chars(serial) },
            ),
        decreases answers@.len() - i,
    {
        proof {
            assert(data.subrange(0, i + 1).drop_last() =~= data.subrange(0, i as int));
            assert(data.subrange(0, i + 1).last() == answers@[i as int].data@);
        }
        if !dropped {
            match &answers[i].data {
                MdnsData::A(ip) => {
                    addrs.push(*ip);
                },
                MdnsData::AAAA(ip) => {
                    addrs.push(*ip);
                },
                MdnsData::Ptr(n) => {
                    if model.is_none() {
                        let c = str_chars(n.as_str());
                        model = Some(cut_at_exec(c.as_slice(), '.'));
                    }
                },
                MdnsData::Txt(t) => {
                    if serial.is_none() {
                        if t.len() == 0 {
                            dropped = true;
                        } else {
                            let c = str_chars(t[0].as_str());
                            serial = Some(after_first_exec(c.as_slice(), '='));
                        }
                    }
                },
                MdnsData::Other => {},
            }
        }
        i += 1;
    }
    proof {
        assert(data.subrange(0, answers@.len() as int) =~= data);
    }
    if dropped || addrs.len() == 0 {
        return Vec::new();
    }
    let m0: Vec<char> = match model {
        Some(m) => m,
        None => lit("unknown"),
    };
    let mut sep: Vec<char> = Vec::new();
    sep.push(' ');
    sep.push('-');
    sep.push(' ');
    assert(sep@ =~= name_sep());
    let found = find_sub_exec(m0.as_slice(), sep.as_slice(), 0);
    proof {
        lemma_find_sub_bounds(m0@, name_sep(), 0);
    }
    let (model_chars, serial_chars) = match found {
        Some(p) => {
            assert(find_sub(m0@, name_sep(), 0) == Some(p as int));
            assert(name_sep().len() == 3);
            let n = m0.len();
            assert(p + 3 <= n);
            let head = slice_vec(m0.as_slice(), 0, p);
            let m = trim_exec(head.as_slice());
            let s = match serial {
                Some(s) => s,
                None => {
                    let tail = slice_vec(m0.as_slice(), p + 3, n);
                    trim_exec(tail.as_slice())
                },
            };
            (m, s)
        },
        None => {
            let s = match serial {
                Some(s) => s,
                None => lit("unknown"),
            };
            (m0, s)
        },
    };
    let model_s = string_from_chars(model_chars.as_slice());
    let serial_s = string_from_chars(serial_chars.as_slice());
    report_addresses("Axis", 1, addrs.as_slice(), model_s.as_str(), serial_s.as_str(), cfg)
}

} // verus!
