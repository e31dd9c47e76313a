//! Google Cast devices, announced over mDNS under `_googlecast._tcp.local`.

use vstd::prelude::*;
use crate::devices::{Device, DeviceView, views};
use crate::ip::IpAddr;
use crate::mdns::{MdnsAnswer, MdnsData, MdnsDataView, answer_data, string_views};
use crate::protocols::common::{index_of, lemma_find_char_bounds, lit, make_device};
use crate::text::{find_char, str_chars, slice_vec, trim, trim_exec};

verus! {

/// The Google Cast engine.
pub struct GoogleCast;

impl GoogleCast {
    pub fn name(&self) -> (r: &'static str)
        ensures
            r@ == "Google"@,
    {
        "Google"
    }

    /// The service domain the engine queries and listens for.
    pub fn domain(&self) -> (r: &'static str)
        ensures
            r@ == "_googlecast._tcp.local"@,
    {
        "_googlecast._tcp.local"
    }

    /// The colour of the engine's rows (`0xRRGGBB`).
    pub fn color(&self) -> (r: u32)
        ensures
            r == 0x00008B,
    {
        0x00008B
    }
}

/// Model and name (`md` and `fn` of the TXT record) as found so far.
pub struct CastNames {
    pub model: Seq<char>,
    pub name: Seq<char>,
}

/// One TXT string: when it holds exactly one `=`, the trimmed key `fn`
/// sets the name and `md` the model, to the trimmed value.
pub open spec fn cast_entry(st: CastNames, e: Seq<char>) -> CastNames {
    match index_of(e, '=') {
        Some(i) => {
            let rest = e.subrange(i + 1, e.len() as int);
            if index_of(rest, '=') is None {
                let key = trim(e.subrange(0, i));
                let value = trim(rest);
                if key == seq!['f', 'n'] {
                    CastNames { model: st.model, name: value }
                } else if key == seq!['m', 'd'] {
                    CastNames { model: value, name: st.name }
                } else {
                    st
                }
            } else {
                st
            }
        },
        None => st,
    }
}

/// The strings of a TXT record taken in order.
pub open spec fn cast_entries(st: CastNames, t: Seq<Seq<char>>) -> CastNames
    decreases t.len(),
{
    if t.len() == 0 {
        st
    } else {
        cast_entry(cast_entries(st, t.drop_last()), t.last())
    }
}

/// What the answers of one reply have given so far.
pub struct CastState {
    pub v4: Option<IpAddr>,
    pub v6: Option<IpAddr>,
    pub names: CastNames,
}

/// One answer: the first A and the first AAAA give the two addresses; every
/// TXT record whose first string holds `=` is read for `fn` and `md`; a TXT
/// record with no strings drops the reply (`None`).
pub open spec fn cast_step(st: CastState, d: MdnsDataView) -> Option<CastState> {
    match d {
        MdnsDataView::A(ip) => Some(if st.v4 is None { CastState { v4: Some(ip), v6: st.v6, names: st.names } } else { st }),
        MdnsDataView::AAAA(ip) => Some(if st.v6 is None { CastState { v4: st.v4, v6: Some(ip), names: st.names } } else { st }),
        MdnsDataView::Txt(t) => if t.len() == 0 {
            None
        } else if index_of(t[0], '=') is Some {
            Some(CastState { v4: st.v4, v6: st.v6, names: cast_entries(st.names, t) })
        } else {
            Some(st)
        },
        _ => Some(st),
    }
}

pub open spec fn cast_walk(d: Seq<MdnsDataView>) -> Option<CastState>
    decreases d.len(),
{
    if d.len() == 0 {
        Some(CastState { v4: None, v6: None, names: CastNames { model: "unknown"@, name: "unknown"@ } })
    } else {
        match cast_walk(d.drop_last()) {
            Some(st) => cast_step(st, d.last()),
            None => None,
        }
    }
}

pub open spec fn cast_device(ip: IpAddr, names: CastNames) -> DeviceView {
    DeviceView { protocol: "Google"@, version: 1, ip, mac: Seq::empty(), device_type: names.model, serial: names.name }
}

/// The devices of one reply: one for the IPv4 address and then one for the
/// IPv6 address, each when there is one, whatever their class; none when
/// the reply was dropped.
pub open spec fn cast_devices(d: Seq<MdnsDataView>) -> Seq<DeviceView> {
    match cast_walk(d) {
        None => Seq::empty(),
        Some(st) => (match st.v4 {
            Some(ip) => seq![cast_device(ip, st.names)],
            None => Seq::empty(),
        }) + (match st.v6 {
            Some(ip) => seq![cast_device(ip, st.names)],
            None => Seq::empty(),
        }),
    }
}

fn read_cast_txt(model: &mut Vec<char>, name: &mut Vec<char>, t: &Vec<String>)
    ensures
        cast_entries(CastNames { model: old(model)@, name: old(name)@ }, string_views(t@))
            == (CastNames { model: final(model)@, name: final(name)@ }),
{
    let ghost start = CastNames { model: model@, name: name@ };
    let ghost ts = string_views(t@);
    let mut i: usize = 0;
    while i < t.len()
        invariant
            i <= t@.len(),
            ts == string_views(t@),
            cast_entries(start, ts.subrange(0, i as int)) == (CastNames { model: model@, name: name@ }),
        decreases t@.len() - i,
    {
        proof {
            assert(ts.subrange(0, i + 1).drop_last() =~= ts.subrange(0, i as int));
        }
        let e = str_chars(t[i].as_str());
        proof {
            lemma_find_char_bounds(e@, '=', 0);
        }
        match find_char(e.as_slice(), '=', 0) {
            Some(k) => {
                let n = e.len();
                let rest = slice_vec(e.as_slice(), k + 1, n);
                proof {
                    lemma_find_char_bounds(rest@, '=', 0);
                }
                if find_char(rest.as_slice(), '=', 0).is_none() {
                    let head = slice_vec(e.as_slice(), 0, k);
                    let key = trim_exec(head.as_slice());
                    let value = trim_exec(rest.as_slice());
                    if key.len() == 2 && key[0] == 'f' && key[1] == 'n' {
                        assert(key@ =~= seq!['f', 'n']);
                        *name = value;
                    } else if key.len() == 2 && key[0] == 'm' && key[1] == 'd' {
                        assert(key@ =~= seq!['m', 'd']);
                        assert(key@ != seq!['f', 'n']);
                        *model = value;
                    } else {
                        assert(key@ != seq!['f', 'n']);
                        assert(key@ != seq!['m', 'd']);
                    }
                }
            },
            None => {},
        }
        i += 1;
    }
    proof {
        assert(ts.subrange(0, t@.len() as int) =~= ts);
    }
}

/// The devices a Google Cast mDNS reply announces.
pub fn googlecast_convert(answers: &[MdnsAnswer]) -> (devs: Vec<Device>)
    ensures
        views(devs@) == cast_devices(answer_data(answers@)),
{
    let ghost data = answer_data(answers@);
    let mut v4: Option<IpAddr> = None;
    let mut v6: Option<IpAddr> = None;
    let mut model: Vec<char> = lit("unknown");
    let mut name: Vec<char> = lit("unknown");
    let mut dropped = false;
    let mut i: usize = 0;
    while i < answers.len()
        invariant
            i <= answers@.len(),
            data == answer_data(answers@),
            dropped ==> cast_walk(data.subrange(0, i as int)) is None,
            !dropped ==> cast_walk(data.subrange(0, i as int)) == Some(
                CastState { v4, v6, names: CastNames { model: model@, name: name@ } },
            ),
        decreases answers@.len() - i,
    {
        proof {
            assert(data.subrange(0, i + 1).drop_last() =~= data.subrange(0, i as int));
            assert(data.subrange(0, i + 1).last() == answers@[i as int].data@);
        }
        if !dropped {
            match &answers[i].data {
                MdnsData::A(ip) => {
                    if v4.is_none() {
                        v4 = Some(*ip);
                    }
                },
                MdnsData::AAAA(ip) => {
                    if v6.is_none() {
                        v6 = Some(*ip);
                    }
                },
                MdnsData::Txt(t) => {
                    if t.len() == 0 {
                        dropped = true;
                    } else {
                        let first = str_chars(t[0].as_str());
                        if find_char(first.as_slice(), '=', 0).is_some() {
                            read_cast_txt(&mut model, &mut name, t);
                        }
                    }
                },
                _ => {},
            }
        }
        i += 1;
    }
    proof {
        assert(data.subrange(0, answers@.len() as int) =~= data);
    }
    let mut out: Vec<Device> = Vec::new();
    if dropped {
        return out;
    }
    let no_mac: Vec<char> = Vec::new();
    if let Some(ip) = v4 {
        out.push(make_device("Google", 1, ip, no_mac.as_slice(), model.as_slice(), name.as_slice()));
    }
    if let Some(ip) = v6 {
        out.push(make_device("Google", 1, ip, no_mac.as_slice(), model.as_slice(), name.as_slice()));
    }
    proof {
        assert(views(out@) =~= cast_devices(data));
    }
    out
}

proof fn lemma_cast_walk_dropped(d: Seq<MdnsDataView>, k: int)
    requires
        0 <= k < d.len(),
        d[k] matches MdnsDataView::Txt(t) && t.len() == 0,
    ensures
        cast_walk(d) is None,
    decreases d.len(),
{
    if k < d.len() - 1 {
        lemma_cast_walk_dropped(d.drop_last(), k);
    }
}

/// A reply with a TXT record that holds no strings reports nothing, wherever
/// that record stands among its answers.
pub proof fn law_empty_txt_drops_reply(d: Seq<MdnsDataView>, k: int)
    requires
        0 <= k < d.len(),
        d[k] matches MdnsDataView::Txt(t) && t.len() == 0,
    ensures
        cast_devices(d) == Seq::<DeviceView>::empty(),
{
    lemma_cast_walk_dropped(d, k);
}

/// A reply reports at most two devices (one per address family, without
/// any filtering of self-assigned addresses), all under `Google` with
/// version 1 and one model and name between them.
pub proof fn law_cast_reports(d: Seq<MdnsDataView>)
    ensures
        cast_devices(d).len() <= 2,
        forall|i: int| 0 <= i < cast_devices(d).len() ==> {
            &&& #[trigger] cast_devices(d)[i].protocol == "Google"@
            &&& cast_devices(d)[i].version == 1
            &&& cast_devices(d)[i].device_type == cast_devices(d)[0].device_type
            &&& cast_devices(d)[i].serial == cast_devices(d)[0].serial
        },
{
}

/// No TXT record of the reply is without strings.
pub open spec fn no_empty_txt(d: Seq<MdnsDataView>) -> bool {
    forall|k: int| 0 <= k < d.len() ==> !(#[trigger] d[k] matches MdnsDataView::Txt(t) && t.len() == 0)
}

/// Some TXT record of the reply is read for names: its first string holds `=`.
pub open spec fn names_read(d: Seq<MdnsDataView>) -> bool {
    exists|k: int| 0 <= k < d.len() && (#[trigger] d[k] matches MdnsDataView::Txt(t) && t.len() > 0 && index_of(t[0], '=') is Some)
}

/// The address of the first A answer, if any.
pub open spec fn first_a(d: Seq<MdnsDataView>) -> Option<IpAddr>
    decreases d.len(),
{
    if d.len() == 0 {
        None
    } else {
        match first_a(d.drop_last()) {
            Some(x) => Some(x),
            None => match d.last() {
                MdnsDataView::A(ip) => Some(ip),
                _ => None,
            },
        }
    }
}

/// The address of the first AAAA answer, if any.
pub open spec fn first_aaaa(d: Seq<MdnsDataView>) -> Option<IpAddr>
    decreases d.len(),
{
    if d.len() == 0 {
        None
    } else {
        match first_aaaa(d.drop_last()) {
            Some(x) => Some(x),
            None => match d.last() {
                MdnsDataView::AAAA(ip) => Some(ip),
                _ => None,
            },
        }
    }
}

proof fn lemma_cast_walk_some(d: Seq<MdnsDataView>)
    requires
        no_empty_txt(d),
    ensures
        cast_walk(d) matches Some(st) && st.v4 == first_a(d) && st.v6 == first_aaaa(d)
            && (!names_read(d) ==> st.names == CastNames { model: "unknown"@, name: "unknown"@ }),
    decreases d.len(),
{
    if d.len() > 0 {
        let p = d.drop_last();
        assert forall|k: int| 0 <= k < p.len() implies !(#[trigger] p[k] matches MdnsDataView::Txt(t) && t.len() == 0) by {
            assert(p[k] == d[k]);
        }
        if !names_read(d) {
            if names_read(p) {
                let k = choose|k: int| 0 <= k < p.len() && (#[trigger] p[k] matches MdnsDataView::Txt(t) && t.len() > 0 && index_of(t[0], '=') is Some);
                assert(p[k] == d[k]);
            }
            assert(!(d[d.len() - 1] matches MdnsDataView::Txt(t) && t.len() > 0 && index_of(t[0], '=') is Some));
        }
        lemma_cast_walk_some(p);
        assert(!(d[d.len() - 1] matches MdnsDataView::Txt(t) && t.len() == 0));
    }
}

/// A reply with no TXT record lacking strings reports one device per
/// address family that has an A (or AAAA) answer: first the one at the first
/// A answer's address, then the one at the first AAAA answer's address;
/// without a TXT record read for names both carry `unknown` as model and name.
pub proof fn law_cast_count_and_order(d: Seq<MdnsDataView>)
    requires
        no_empty_txt(d),
    ensures
        cast_devices(d).len() == (if first_a(d) is Some { 1int } else { 0 }) + (if first_aaaa(d) is Some { 1int } else { 0 }),
        first_a(d) matches Some(ip) ==> cast_devices(d)[0].ip == ip,
        first_aaaa(d) matches Some(ip) ==> cast_devices(d).last().ip == ip,
        !names_read(d) ==> forall|i: int| 0 <= i < cast_devices(d).len()
            ==> #[trigger] cast_devices(d)[i].device_type == "unknown"@ && cast_devices(d)[i].serial == "unknown"@,
{
    lemma_cast_walk_some(d);
}

/// No `=` in a text.
pub open spec fn no_eq(t: Seq<char>) -> bool {
    forall|i: int| 0 <= i < t.len() ==> t[i] != '='
}

proof fn lemma_first_eq(s: Seq<char>, from: int, k: int)
    requires
        0 <= from <= k <= s.len(),
        forall|i: int| from <= i < k ==> s[i] != '=',
        k == s.len() || s[k] == '=',
    ensures
        index_of_from(s, from) == (if k == s.len() { None } else { Some(k) }),
    decreases k - from,
{
    if from < k {
        lemma_first_eq(s, from + 1, k);
    }
}

pub open spec fn index_of_from(s: Seq<char>, from: int) -> Option<int> {
    crate::text::find_char_from(s, '=', from)
}

/// How one TXT string is read: `key=value` with one `=` sets the name to the
/// trimmed value when the trimmed key is `fn`, the model when it is `md`,
/// and nothing otherwise; a string with more than one `=`, or none,
/// changes nothing.
pub proof fn law_cast_entry_rules(st: CastNames, k: Seq<char>, v: Seq<char>)
    requires
        no_eq(k),
    ensures
        no_eq(v) && trim(k) == seq!['f', 'n'] ==> cast_entry(st, k + seq!['='] + v) == (CastNames { model: st.model, name: trim(v) }),
        no_eq(v) && trim(k) == seq!['m', 'd'] ==> cast_entry(st, k + seq!['='] + v) == (CastNames { model: trim(v), name: st.name }),
        no_eq(v) && trim(k) != seq!['f', 'n'] && trim(k) != seq!['m', 'd'] ==> cast_entry(st, k + seq!['='] + v) == st,
        !no_eq(v) ==> cast_entry(st, k + seq!['='] + v) == st,
        cast_entry(st, k) == st,
{
    let e = k + seq!['='] + v;
    lemma_first_eq(e, 0, k.len() as int);
    lemma_first_eq(k, 0, k.len() as int);
    assert(e.subrange(0, k.len() as int) =~= k);
    let rest = e.subrange(k.len() as int + 1, e.len() as int);
    assert(rest =~= v);
    if no_eq(v) {
        lemma_first_eq(v, 0, v.len() as int);
    } else {
        lemma_some_eq(v, 0);
    }
}

proof fn lemma_some_eq(v: Seq<char>, from: int)
    requires
        0 <= from <= v.len(),
        exists|j: int| from <= j < v.len() && v[j] == '=',
    ensures
        index_of_from(v, from) is Some,
    decreases v.len() - from,
{
    if v[from] != '=' {
        lemma_some_eq(v, from + 1);
    }
}

} // verus!
