//! Engine selection for a scan: the registry and the ARP engine, filtered by
//! protocol names compared without regard to ASCII letter case.

use vstd::prelude::*;
use crate::config::{Config, Error};
use crate::ports::PortProvider;
use crate::protocols::common::chars_eq;
use crate::protocols::engines::{Engine, engine_name, engine_ports, scan_engines, scan_table};
use crate::text::{lower_char, str_chars, string_from_chars, to_lower_char};

verus! {

/// A text with its ASCII capitals made small.
pub open spec fn ascii_lower(s: Seq<char>) -> Seq<char> {
    s.map_values(|c: char| lower_char(c))
}

/// The lower-case names of a list of engines, in order.
pub open spec fn lower_names(entries: Seq<(u16, Engine)>) -> Seq<Seq<char>> {
    entries.map_values(|p: (u16, Engine)| ascii_lower(engine_name(p.1)))
}

/// The names a filter asks for, lower-cased.
pub open spec fn wanted_names(names: Seq<String>) -> Seq<Seq<char>> {
    names.map_values(|s: String| ascii_lower(s@))
}

/// The entries whose lower-case name is wanted, in their order.
pub open spec fn selected(entries: Seq<(u16, Engine)>, wanted: Seq<Seq<char>>) -> Seq<(u16, Engine)>
    decreases entries.len(),
{
    if entries.len() == 0 {
        Seq::empty()
    } else {
        let rest = selected(entries.drop_last(), wanted);
        if wanted.contains(ascii_lower(engine_name(entries.last().1))) {
            rest.push(entries.last())
        } else {
            rest
        }
    }
}

/// The first wanted name that is no engine's name, if any.
pub open spec fn first_unknown(wanted: Seq<Seq<char>>, known: Seq<Seq<char>>) -> Option<Seq<char>>
    decreases wanted.len(),
{
    if wanted.len() == 0 {
        None
    } else if !known.contains(wanted[0]) {
        Some(wanted[0])
    } else {
        first_unknown(wanted.drop_first(), known)
    }
}

/// Names joined with `", "`.
pub open spec fn comma_joined(names: Seq<Seq<char>>) -> Seq<char>
    decreases names.len(),
{
    if names.len() == 0 {
        Seq::empty()
    } else if names.len() == 1 {
        names[0]
    } else {
        comma_joined(names.drop_last()) + seq![',', ' '] + names.last()
    }
}

/// The message for an unknown name: `unknown protocol: <name>; available: <names>`.
pub open spec fn unknown_message(name: Seq<char>, known: Seq<Seq<char>>) -> Seq<char> {
    "unknown protocol: "@ + name + "; available: "@ + comma_joined(known)
}

/// The engines a filter selects: all of them without a filter; else those
/// whose name is asked for, or the message naming the first name asked for
/// that no engine has.
pub open spec fn selection(protocols: Option<Seq<String>>) -> Result<Seq<(u16, Engine)>, Seq<char>> {
    match protocols {
        None => Ok(scan_table()),
        Some(names) => {
            let known = lower_names(scan_table());
            let wanted = wanted_names(names);
            match first_unknown(wanted, known) {
                Some(w) => Err(unknown_message(w, known)),
                None => Ok(selected(scan_table(), wanted)),
            }
        },
    }
}

/// The engines of a scan and the switches it runs with.
pub struct Scanner {
    config: Config,
    entries: Vec<(u16, Engine)>,
}

impl Scanner {
    /// The selected engines with their registry IDs, in registry order.
    pub closed spec fn entries_view(&self) -> Seq<(u16, Engine)> {
        self.entries@
    }

    pub closed spec fn config_view(&self) -> Config {
        self.config
    }

    /// A scanner over the engines that `protocols` names (every engine for
    /// `None`), or a configuration error for a name no engine has.
    pub fn new(config: Config, protocols: Option<&[String]>) -> (r: Result<Scanner, Error>)
        ensures
            protocols is None ==> (r matches Ok(s) && s.entries_view() == scan_table() && s.config_view() == config),
            protocols is Some ==> match selection(Some(protocols->0@)) {
                Ok(es) => (r matches Ok(s) && s.entries_view() == es && s.config_view() == config),
                Err(m) => (r matches Err(Error::Config(msg)) && msg@ == m),
            },
    {
        let all = scan_engines();
        match protocols {
            None => {
                let s = Scanner { config, entries: all };
                assert(s.entries_view() == scan_table());
                assert(s.config_view() == config);
                Ok(s)
            },
            Some(names) => {
                let known = lower_entry_names(&all);
                let wanted = lower_strings(names);
                assert(vec_views(known@) =~= lower_names(scan_table()));
                assert(vec_views(wanted@) =~= wanted_names(names@));
                match find_unknown(&wanted, &known) {
                    Some(k) => {
                        let msg = unknown_text(wanted[k].as_slice(), &known);
                        Err(Error::Config(string_from_chars(msg.as_slice())))
                    },
                    None => {
                        let entries = select_entries(&all, &wanted);
                        Ok(Scanner { config, entries })
                    },
                }
            },
        }
    }

    /// The number of selected engines.
    pub fn len(&self) -> (n: usize)
        ensures
            n == self.entries_view().len(),
    {
        self.entries.len()
    }

    pub fn is_empty(&self) -> (b: bool)
        ensures
            b == (self.entries_view().len() == 0),
    {
        self.entries.len() == 0
    }

    /// The selected engines with their IDs.
    pub fn entries(&self) -> (r: &Vec<(u16, Engine)>)
        ensures
            r@ == self.entries_view(),
    {
        &self.entries
    }

    /// The switches the scan runs with.
    pub fn config(&self) -> (c: Config)
        ensures
            c == self.config_view(),
    {
        self.config
    }

    /// The selected engines' names, in order.
    pub fn protocol_names(&self) -> (r: Vec<String>)
        ensures
            r@.len() == self.entries_view().len(),
            forall|i: int| 0 <= i < r@.len() ==> #[trigger] r@[i]@ == engine_name(self.entries_view()[i].1),
    {
        let mut r: Vec<String> = Vec::new();
        let mut i: usize = 0;
        while i < self.entries.len()
            invariant
                i <= self.entries@.len(),
                r@.len() == i,
                forall|j: int| 0 <= j < i ==> #[trigger] r@[j]@ == engine_name(self.entries@[j].1),
            decreases self.entries@.len() - i,
        {
            let name = self.entries[i].1.name();
            r.push(crate::text::owned(name));
            i += 1;
        }
        r
    }

    /// Whether the scan needs the mDNS broker (an mDNS engine is selected).
    pub fn needs_mdns(&self) -> (b: bool)
        ensures
            b == exists|i: int| 0 <= i < self.entries_view().len() && mdns_engine(#[trigger] self.entries_view()[i].1),
    {
        let mut i: usize = 0;
        while i < self.entries.len()
            invariant
                i <= self.entries@.len(),
                forall|j: int| 0 <= j < i ==> !mdns_engine(#[trigger] self.entries@[j].1),
            decreases self.entries@.len() - i,
        {
            let e = self.entries[i].1;
            if e == Engine::Axis || e == Engine::GoogleCast || e == Engine::Arecont {
                assert(mdns_engine(self.entries_view()[i as int].1));
                return true;
            }
            i += 1;
        }
        false
    }

    /// Reserves the fixed ports of every selected engine before the engines
    /// bind theirs.
    pub fn reserve_ports(&self, ports: &mut PortProvider)
        ensures
            final(ports).used_ports() == old(ports).used_ports().union(engines_ports(self.entries_view())),
            final(ports).seed() == old(ports).seed(),
    {
        let mut i: usize = 0;
        while i < self.entries.len()
            invariant
                i <= self.entries@.len(),
                ports.used_ports() == old(ports).used_ports().union(engines_ports(self.entries@.subrange(0, i as int))),
                ports.seed() == old(ports).seed(),
            decreases self.entries@.len() - i,
        {
            let used = self.entries[i].1.used_ports();
            ports.reserve(used.as_slice());
            proof {
                let pre = self.entries@.subrange(0, i as int);
                let nxt = self.entries@.subrange(0, i + 1);
                assert(nxt.drop_last() =~= pre);
                assert(old(ports).used_ports().union(engines_ports(pre)).union(engine_ports(self.entries@[i as int].1).to_set())
                    =~= old(ports).used_ports().union(engines_ports(nxt)));
            }
            i += 1;
        }
        assert(self.entries@.subrange(0, self.entries@.len() as int) =~= self.entries@);
    }
}

/// Whether an engine is one of the mDNS consumers.
pub open spec fn mdns_engine(e: Engine) -> bool {
    e == Engine::Axis || e == Engine::GoogleCast || e == Engine::Arecont
}

/// All fixed ports of a list of engines.
pub open spec fn engines_ports(entries: Seq<(u16, Engine)>) -> Set<u16>
    decreases entries.len(),
{
    if entries.len() == 0 {
        Set::empty()
    } else {
        engines_ports(entries.drop_last()).union(engine_ports(entries.last().1).to_set())
    }
}

fn lower_chars(s: &str) -> (r: Vec<char>)
    ensures
        r@ == ascii_lower(s@),
{
    let cs = str_chars(s);
    let mut r: Vec<char> = Vec::new();
    let mut i: usize = 0;
    while i < cs.len()
        invariant
            i <= cs@.len(),
            cs@ == s@,
            r@ == ascii_lower(cs@.subrange(0, i as int)),
        decreases cs@.len() - i,
    {
        r.push(to_lower_char(cs[i]));
        proof {
            assert(ascii_lower(cs@.subrange(0, i + 1)) =~= ascii_lower(cs@.subrange(0, i as int)).push(lower_char(cs@[i as int])));
        }
        i += 1;
    }
    assert(cs@.subrange(0, cs@.len() as int) =~= cs@);
    r
}

fn lower_entry_names(all: &Vec<(u16, Engine)>) -> (r: Vec<Vec<char>>)
    ensures
        r@.len() == all@.len(),
        forall|i: int| 0 <= i < r@.len() ==> #[trigger] r@[i]@ == lower_names(all@)[i],
{
    let mut r: Vec<Vec<char>> = Vec::new();
    let mut i: usize = 0;
    while i < all.len()
        invariant
            i <= all@.len(),
            r@.len() == i,
            forall|j: int| 0 <= j < i ==> #[trigger] r@[j]@ == lower_names(all@)[j],
        decreases all@.len() - i,
    {
        r.push(lower_chars(all[i].1.name()));
        i += 1;
    }
    r
}

fn lower_strings(names: &[String]) -> (r: Vec<Vec<char>>)
    ensures
        r@.len() == names@.len(),
        forall|i: int| 0 <= i < r@.len() ==> #[trigger] r@[i]@ == wanted_names(names@)[i],
{
    let mut r: Vec<Vec<char>> = Vec::new();
    let mut i: usize = 0;
    while i < names.len()
        invariant
            i <= names@.len(),
            r@.len() == i,
            forall|j: int| 0 <= j < i ==> #[trigger] r@[j]@ == wanted_names(names@)[j],
        decreases names@.len() - i,
    {
        r.push(lower_chars(names[i].as_str()));
        i += 1;
    }
    r
}

/// The views of a list of character vectors.
pub open spec fn vec_views(v: Seq<Vec<char>>) -> Seq<Seq<char>> {
    v.map_values(|x: Vec<char>| x@)
}

fn contains_chars(list: &Vec<Vec<char>>, x: &[char]) -> (b: bool)
    ensures
        b == vec_views(list@).contains(x@),
{
    let mut i: usize = 0;
    while i < list.len()
        invariant
            i <= list@.len(),
            forall|j: int| 0 <= j < i ==> #[trigger] list@[j]@ != x@,
        decreases list@.len() - i,
    {
        if chars_eq(list[i].as_slice(), x) {
            assert(vec_views(list@)[i as int] == x@);
            return true;
        }
        i += 1;
    }
    proof {
        if vec_views(list@).contains(x@) {
            let k = choose|k: int| 0 <= k < vec_views(list@).len() && vec_views(list@)[k] == x@;
            assert(list@[k]@ == x@);
        }
    }
    false
}

fn find_unknown(wanted: &Vec<Vec<char>>, known: &Vec<Vec<char>>) -> (r: Option<usize>)
    ensures
        match r {
            Some(k) => k < wanted@.len() && first_unknown(vec_views(wanted@), vec_views(known@)) == Some(wanted@[k as int]@),
            None => first_unknown(vec_views(wanted@), vec_views(known@)) is None,
        },
{
    let ghost w = vec_views(wanted@);
    let ghost kn = vec_views(known@);
    let mut i: usize = 0;
    assert(w.subrange(0, w.len() as int) =~= w);
    while i < wanted.len()
        invariant
            i <= wanted@.len(),
            w == vec_views(wanted@),
            kn == vec_views(known@),
            first_unknown(w, kn) == first_unknown(w.subrange(i as int, w.len() as int), kn),
        decreases wanted@.len() - i,
    {
        let ghost rest = w.subrange(i as int, w.len() as int);
        assert(rest[0] == wanted@[i as int]@);
        if !contains_chars(known, wanted[i].as_slice()) {
            return Some(i);
        }
        assert(rest.drop_first() =~= w.subrange(i + 1, w.len() as int));
        i += 1;
    }
    None
}

fn push_slice(out: &mut Vec<char>, s: &[char])
    ensures
        final(out)@ == old(out)@ + s@,
{
    let mut i: usize = 0;
    while i < s.len()
        invariant
            i <= s@.len(),
            out@ == old(out)@ + s@.subrange(0, i as int),
        decreases s@.len() - i,
    {
        out.push(s[i]);
        proof {
            assert(s@.subrange(0, i + 1) =~= s@.subrange(0, i as int).push(s@[i as int]));
        }
        i += 1;
    }
    assert(s@.subrange(0, s@.len() as int) =~= s@);
}

fn unknown_text(name: &[char], known: &Vec<Vec<char>>) -> (r: Vec<char>)
    ensures
        r@ == unknown_message(name@, vec_views(known@)),
{
    let mut r = str_chars("unknown protocol: ");
    push_slice(&mut r, name);
    let sep = str_chars("; available: ");
    push_slice(&mut r, sep.as_slice());
    let ghost kv = vec_views(known@);
    let ghost head = r@;
    let mut i: usize = 0;
    while i < known.len()
        invariant
            i <= known@.len(),
            kv == vec_views(known@),
            r@ == head + comma_joined(kv.subrange(0, i as int)),
        decreases known@.len() - i,
    {
        let ghost pre = r@;
        if i > 0 {
            r.push(',');
            r.push(' ');
        }
        push_slice(&mut r, known[i].as_slice());
        proof {
            let sub = kv.subrange(0, i + 1);
            assert(sub.drop_last() =~= kv.subrange(0, i as int));
            if i == 0 {
                assert(comma_joined(sub) == sub[0]);
                assert(comma_joined(kv.subrange(0, 0)) == Seq::<char>::empty());
            }
            assert(r@ =~= head + comma_joined(sub));
        }
        i += 1;
    }
    assert(kv.subrange(0, kv.len() as int) =~= kv);
    r
}

fn select_entries(all: &Vec<(u16, Engine)>, wanted: &Vec<Vec<char>>) -> (r: Vec<(u16, Engine)>)
    ensures
        r@ == selected(all@, vec_views(wanted@)),
{
    let ghost w = vec_views(wanted@);
    let mut r: Vec<(u16, Engine)> = Vec::new();
    let mut i: usize = 0;
    while i < all.len()
        invariant
            i <= all@.len(),
            w == vec_views(wanted@),
            r@ == selected(all@.subrange(0, i as int), w),
        decreases all@.len() - i,
    {
        let name = lower_chars(all[i].1.name());
        let keep = contains_chars(wanted, name.as_slice());
        proof {
            assert(all@.subrange(0, i + 1).drop_last() =~= all@.subrange(0, i as int));
        }
        if keep {
            r.push(all[i]);
        }
        i += 1;
    }
    assert(all@.subrange(0, all@.len() as int) =~= all@);
    r
}

/// Without a filter a scan runs every engine: those of the registry and the
/// ARP engine.
pub proof fn law_no_filter_selects_all()
    ensures
        selection(None) == Ok::<Seq<(u16, Engine)>, Seq<char>>(scan_table()),
{
}

/// A filter keeps only entries of the list it filters, in their order, and every entry
/// it keeps carries a name that was asked for.
pub proof fn law_filter_keeps_wanted(entries: Seq<(u16, Engine)>, wanted: Seq<Seq<char>>)
    ensures
        selected(entries, wanted).len() <= entries.len(),
        forall|i: int| 0 <= i < selected(entries, wanted).len()
            ==> entries.contains(#[trigger] selected(entries, wanted)[i])
                && wanted.contains(ascii_lower(engine_name(selected(entries, wanted)[i].1))),
    decreases entries.len(),
{
    if entries.len() > 0 {
        law_filter_keeps_wanted(entries.drop_last(), wanted);
        let s = selected(entries, wanted);
        let rest = selected(entries.drop_last(), wanted);
        assert forall|i: int| 0 <= i < s.len() implies entries.contains(#[trigger] s[i])
            && wanted.contains(ascii_lower(engine_name(s[i].1))) by {
            if i < rest.len() {
                assert(s[i] == rest[i]);
                assert(entries.drop_last().contains(rest[i]));
                let k = choose|k: int| 0 <= k < entries.drop_last().len() && entries.drop_last()[k] == rest[i];
                assert(entries[k] == s[i]);
            } else {
                assert(s[i] == entries.last());
                assert(entries[entries.len() - 1] == s[i]);
            }
        }
    }
}

/// A filter that asks for every engine's name selects the whole list.
pub proof fn law_filter_all_names(entries: Seq<(u16, Engine)>, wanted: Seq<Seq<char>>)
    requires
        forall|i: int| 0 <= i < entries.len() ==> wanted.contains(ascii_lower(engine_name(#[trigger] entries[i].1))),
    ensures
        selected(entries, wanted) == entries,
    decreases entries.len(),
{
    if entries.len() > 0 {
        assert forall|i: int| 0 <= i < entries.drop_last().len() implies wanted.contains(
            ascii_lower(engine_name(#[trigger] entries.drop_last()[i].1))) by {
            assert(entries.drop_last()[i] == entries[i]);
        }
        law_filter_all_names(entries.drop_last(), wanted);
        assert(wanted.contains(ascii_lower(engine_name(entries[entries.len() - 1].1))));
        assert(entries.drop_last().push(entries.last()) =~= entries);
    }
}

/// The protocol filter ignores ASCII letter case: two lists of names that
/// agree but for the case of their letters select the same engines, or are
/// refused with the same message.
pub proof fn law_filter_ignores_case(n1: Seq<String>, n2: Seq<String>)
    requires
        n1.len() == n2.len(),
        forall|i: int| 0 <= i < n1.len() ==> ascii_lower(#[trigger] n1[i]@) == ascii_lower(n2[i]@),
    ensures
        selection(Some(n1)) == selection(Some(n2)),
{
    assert(wanted_names(n1) =~= wanted_names(n2));
}

} // verus!
