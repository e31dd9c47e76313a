//! 360 Vision cameras (UDP 3600): the probe `DISCOVER\n`, answered by a
//! line of `KEY=value` pairs.

use vstd::prelude::*;
use crate::devices::{Device, DeviceView, views};
use crate::ip::IpAddr;
use crate::protocols::common::{index_of, lemma_find_char_bounds, make_device, lit, chars_eq};
use crate::text::{find_char, find_char_from, lossy_utf8, utf8_lossy, slice_vec, str_chars, string_from_chars};

verus! {

pub const PORT: u16 = 3600;

/// The probe, which the cameras' own probes echo back.
pub open spec fn request_text() -> Seq<char> {
    seq!['D', 'I', 'S', 'C', 'O', 'V', 'E', 'R', '\n']
}

pub fn build_probe() -> (p: Vec<u8>)
    ensures
        p@ == request_text().map_values(|c: char| c as u8),
{
    let p: Vec<u8> = vec![0x44u8, 0x49, 0x53, 0x43, 0x4f, 0x56, 0x45, 0x52, 0x0a];
    assert(p@ =~= request_text().map_values(|c: char| c as u8));
    p
}

// ----------------------------------------------------------------------------
// `KEY=value` pairs.
// ----------------------------------------------------------------------------

pub open spec fn is_alpha(c: char) -> bool {
    ('A' <= c && c <= 'Z') || ('a' <= c && c <= 'z')
}

pub open spec fn is_key_char(c: char) -> bool {
    is_alpha(c) || ('0' <= c && c <= '9') || c == '_'
}

/// End of the key starting at `i`.
pub open spec fn key_end(t: Seq<char>, i: int) -> int
    decreases t.len() - i,
{
    if i < 0 || i >= t.len() || !is_key_char(t[i]) {
        i
    } else {
        key_end(t, i + 1)
    }
}

/// Index of the first space at or after `i`, or the length.
pub open spec fn space_from(t: Seq<char>, i: int) -> int
    decreases t.len() - i,
{
    if i < 0 || i >= t.len() || t[i] == ' ' {
        i
    } else {
        space_from(t, i + 1)
    }
}

/// A value without the quotes around it (both `'` or both `"`).
pub open spec fn strip_paired(v: Seq<char>) -> Seq<char> {
    if v.len() >= 2 && ((v[0] == '\'' && v.last() == '\'') || (v[0] == '"' && v.last() == '"')) {
        v.subrange(1, v.len() - 1)
    } else {
        v
    }
}

/// Whether a key is already among the pairs.
pub open spec fn key_in(out: Seq<(Seq<char>, Seq<char>)>, k: Seq<char>) -> bool
    decreases out.len(),
{
    out.len() > 0 && (out.last().0 == k || key_in(out.drop_last(), k))
}

/// The value starting at `v` and the position after it: a quoted value runs
/// to its closing quote (kept, then stripped); an unquoted one, or a quote
/// never closed, runs to the next space.
pub open spec fn value_at(t: Seq<char>, v: int) -> (Seq<char>, int) {
    if t[v] == '\'' || t[v] == '"' {
        match find_char_from(t, t[v], v + 1) {
            Some(p) => (t.subrange(v, p + 1), p + 1),
            None => (t.subrange(v, space_from(t, v)), space_from(t, v)),
        }
    } else {
        (t.subrange(v, space_from(t, v)), space_from(t, v))
    }
}

/// The pairs from position `i` on: keys are a letter or `_` followed by
/// letters, digits and `_`, then `=`; the first value of a key wins; a key
/// whose `=` ends the text has the empty value.
pub open spec fn kv_from(t: Seq<char>, i: int, out: Seq<(Seq<char>, Seq<char>)>) -> Seq<(Seq<char>, Seq<char>)>
    decreases t.len() - i,
{
    if i < 0 || i >= t.len() {
        out
    } else if !(is_alpha(t[i]) || t[i] == '_') {
        kv_from(t, i + 1, out)
    } else {
        let ke = key_end(t, i);
        if ke <= i || ke > t.len() {
            out
        } else if ke >= t.len() || t[ke] != '=' {
            kv_from(t, ke, out)
        } else {
            let (value, next) = if ke + 1 >= t.len() {
                (Seq::<char>::empty(), t.len() as int)
            } else {
                value_at(t, ke + 1)
            };
            let key = t.subrange(i, ke);
            let out2 = if key_in(out, key) {
                out
            } else {
                out.push((key, strip_paired(value)))
            };
            if next <= i || next > t.len() {
                out2
            } else {
                kv_from(t, next, out2)
            }
        }
    }
}

/// The pairs of a text.
pub open spec fn kv_pairs(t: Seq<char>) -> Seq<(Seq<char>, Seq<char>)> {
    kv_from(t, 0, Seq::empty())
}

pub open spec fn pair_views(v: Seq<(String, String)>) -> Seq<(Seq<char>, Seq<char>)> {
    v.map_values(|p: (String, String)| (p.0@, p.1@))
}

pub open spec fn chars_pairs(v: Seq<(Vec<char>, Vec<char>)>) -> Seq<(Seq<char>, Seq<char>)> {
    v.map_values(|p: (Vec<char>, Vec<char>)| (p.0@, p.1@))
}

proof fn lemma_key_end(t: Seq<char>, i: int)
    requires
        0 <= i <= t.len(),
    ensures
        i <= key_end(t, i) <= t.len(),
        i < t.len() && is_key_char(t[i]) ==> key_end(t, i) > i,
    decreases t.len() - i,
{
    if i < t.len() && is_key_char(t[i]) {
        lemma_key_end(t, i + 1);
    }
}

proof fn lemma_space_from(t: Seq<char>, i: int)
    requires
        0 <= i <= t.len(),
    ensures
        i <= space_from(t, i) <= t.len(),
    decreases t.len() - i,
{
    if i < t.len() && t[i] != ' ' {
        lemma_space_from(t, i + 1);
    }
}

proof fn lemma_find_char_from(t: Seq<char>, c: char, i: int)
    requires
        0 <= i,
    ensures
        find_char_from(t, c, i) matches Some(p) ==> i <= p < t.len() && t[p] == c,
    decreases t.len() - i,
{
    if i < t.len() && t[i] != c {
        lemma_find_char_from(t, c, i + 1);
    }
}

fn key_end_exec(t: &[char], i: usize) -> (r: usize)
    requires
        i <= t@.len(),
    ensures
        r as int == key_end(t@, i as int),
    decreases t@.len() - i,
{
    if i >= t.len() {
        return i;
    }
    let c = t[i];
    if !(('A' <= c && c <= 'Z') || ('a' <= c && c <= 'z') || ('0' <= c && c <= '9') || c == '_') {
        i
    } else {
        key_end_exec(t, i + 1)
    }
}

fn space_from_exec(t: &[char], i: usize) -> (r: usize)
    requires
        i <= t@.len(),
    ensures
        r as int == space_from(t@, i as int),
    decreases t@.len() - i,
{
    if i >= t.len() || t[i] == ' ' {
        i
    } else {
        space_from_exec(t, i + 1)
    }
}

fn strip_paired_exec(v: &[char]) -> (r: Vec<char>)
    ensures
        r@ == strip_paired(v@),
{
    let n = v.len();
    if n >= 2 && ((v[0] == '\'' && v[n - 1] == '\'') || (v[0] == '"' && v[n - 1] == '"')) {
        slice_vec(v, 1, n - 1)
    } else {
        slice_vec(v, 0, n)
    }
}

fn key_in_exec(out: &Vec<(Vec<char>, Vec<char>)>, k: &[char]) -> (r: bool)
    ensures
        r == key_in(chars_pairs(out@), k@),
{
    let ghost cp = chars_pairs(out@);
    let mut j: usize = 0;
    let mut found = false;
    while j < out.len()
        invariant
            j <= out@.len(),
            cp == chars_pairs(out@),
            found == key_in(cp.subrange(0, j as int), k@),
        decreases out@.len() - j,
    {
        proof {
            assert(cp.subrange(0, j + 1).drop_last() =~= cp.subrange(0, j as int));
        }
        if chars_eq(out[j].0.as_slice(), k) {
            found = true;
        }
        j += 1;
    }
    assert(cp.subrange(0, out@.len() as int) =~= cp);
    found
}

fn kv_chars(t: &[char]) -> (r: Vec<(Vec<char>, Vec<char>)>)
    ensures
        kv_pairs(t@) == chars_pairs(r@),
{
    let n = t.len();
    let mut out: Vec<(Vec<char>, Vec<char>)> = Vec::new();
    let mut i: usize = 0;
    assert(chars_pairs(out@) =~= Seq::<(Seq<char>, Seq<char>)>::empty());
    while i < n
        invariant
            i <= n,
            n == t@.len(),
            kv_pairs(t@) == kv_from(t@, i as int, chars_pairs(out@)),
        decreases n - i,
    {
        let c = t[i];
        if !(('A' <= c && c <= 'Z') || ('a' <= c && c <= 'z') || c == '_') {
            i += 1;
        } else {
            let ke = key_end_exec(t, i);
            proof {
                lemma_key_end(t@, i as int);
            }
            if ke >= n || t[ke] != '=' {
                i = ke;
            } else {
                let v = ke + 1;
                let (value, next): (Vec<char>, usize) = if v >= n {
                    (Vec::new(), n)
                } else {
                    proof {
                        lemma_space_from(t@, v as int);
                        lemma_find_char_from(t@, t@[v as int], v + 1);
                    }
                    let q = t[v];
                    let (value, next): (Vec<char>, usize) = if q == '\'' || q == '"' {
                        match find_char(t, q, v + 1) {
                            Some(p) => (slice_vec(t, v, p + 1), p + 1),
                            None => {
                                let e = space_from_exec(t, v);
                                (slice_vec(t, v, e), e)
                            },
                        }
                    } else {
                        let e = space_from_exec(t, v);
                        (slice_vec(t, v, e), e)
                    };
                    assert((value@, next as int) == value_at(t@, v as int));
                    (value, next)
                };
                assert(v >= n ==> value@ =~= Seq::<char>::empty());
                let key = slice_vec(t, i, ke);
                let ghost before = chars_pairs(out@);
                if !key_in_exec(&out, key.as_slice()) {
                    let sv = strip_paired_exec(value.as_slice());
                    out.push((key, sv));
                    assert(chars_pairs(out@) =~= before.push((t@.subrange(i as int, ke as int), strip_paired(value@))));
                }
                i = next;
            }
        }
    }
    proof {
        assert(kv_from(t@, i as int, chars_pairs(out@)) == chars_pairs(out@));
    }
    out
}

/// The `KEY=value` pairs of a text, first value of each key.
pub fn key_value_pairs(text: &str) -> (r: Vec<(String, String)>)
    ensures
        kv_pairs(text@) == pair_views(r@),
{
    let t = str_chars(text);
    let cs = kv_chars(t.as_slice());
    let mut out: Vec<(String, String)> = Vec::new();
    let mut j: usize = 0;
    while j < cs.len()
        invariant
            j <= cs@.len(),
            pair_views(out@) == chars_pairs(cs@).subrange(0, j as int),
        decreases cs@.len() - j,
    {
        let k = string_from_chars(cs[j].0.as_slice());
        let v = string_from_chars(cs[j].1.as_slice());
        let ghost before = out@;
        proof {
            assert(chars_pairs(cs@)[j as int] == (cs@[j as int].0@, cs@[j as int].1@));
        }
        out.push((k, v));
        proof {
            assert(pair_views(out@) =~= pair_views(before).push((k@, v@)));
            assert(chars_pairs(cs@).subrange(0, j + 1) =~= chars_pairs(cs@).subrange(0, j as int).push(chars_pairs(cs@)[j as int]));
        }
        j += 1;
    }
    assert(chars_pairs(cs@).subrange(0, cs@.len() as int) =~= chars_pairs(cs@));
    out
}

// ----------------------------------------------------------------------------
// Answers.
// ----------------------------------------------------------------------------

/// The part of the answer that is read: up to the first newline, minus the
/// character before it (a newline at the start keeps the whole text).
pub open spec fn answer_part(t: Seq<char>) -> Seq<char> {
    match index_of(t, '\n') {
        Some(q) => if q > 0 {
            t.subrange(0, q - 1)
        } else {
            t
        },
        None => t,
    }
}

/// Answers that can be read: the probe's echo, or a text whose character
/// before the first newline is ASCII (the line is cut one byte before it).
pub open spec fn answer_ok(t: Seq<char>) -> bool {
    t == request_text() || (match index_of(t, '\n') {
        Some(q) => q > 0 ==> (t[q - 1] as u32) < 0x80,
        None => true,
    })
}

/// The first value of a key among the pairs, or `dflt`.
pub open spec fn value_of(pairs: Seq<(Seq<char>, Seq<char>)>, k: Seq<char>, dflt: Seq<char>) -> Seq<char>
    decreases pairs.len(),
{
    if pairs.len() == 0 {
        dflt
    } else if pairs[0].0 == k {
        pairs[0].1
    } else {
        value_of(pairs.drop_first(), k, dflt)
    }
}

/// The device of an answer: none for the probe's echo; otherwise one at the
/// sender with the `TYPE` and `KEY` values (`Unknown` when absent).
pub open spec fn vision_devices(from: IpAddr, t: Seq<char>) -> Seq<DeviceView> {
    if t == request_text() {
        Seq::empty()
    } else {
        let pairs = kv_pairs(answer_part(t));
        seq![DeviceView {
            protocol: "360Vision"@,
            version: 1,
            ip: from,
            mac: Seq::empty(),
            device_type: value_of(pairs, seq!['T', 'Y', 'P', 'E'], "Unknown"@),
            serial: value_of(pairs, seq!['K', 'E', 'Y'], "Unknown"@),
        }]
    }
}

fn value_of_exec(pairs: &Vec<(Vec<char>, Vec<char>)>, k: &[char], dflt: &str) -> (r: Vec<char>)
    ensures
        r@ == value_of(chars_pairs(pairs@), k@, dflt@),
{
    let ghost cp = chars_pairs(pairs@);
    let mut j: usize = 0;
    assert(cp.subrange(0, cp.len() as int) =~= cp);
    while j < pairs.len()
        invariant
            j <= pairs@.len(),
            cp == chars_pairs(pairs@),
            value_of(cp, k@, dflt@) == value_of(cp.subrange(j as int, cp.len() as int), k@, dflt@),
        decreases pairs@.len() - j,
    {
        let ghost rest = cp.subrange(j as int, cp.len() as int);
        if chars_eq(pairs[j].0.as_slice(), k) {
            assert(rest[0] == cp[j as int]);
            let n = pairs[j].1.len();
            return slice_vec(pairs[j].1.as_slice(), 0, n);
        }
        assert(rest.drop_first() =~= cp.subrange(j + 1, cp.len() as int));
        j += 1;
    }
    lit(dflt)
}

/// The devices of an answer text from `from`.
pub fn parse_text(from: IpAddr, t: &[char]) -> (devs: Vec<Device>)
    requires
        answer_ok(t@),
    ensures
        views(devs@) == vision_devices(from, t@),
{
    let mut out: Vec<Device> = Vec::new();
    let req: Vec<char> = vec!['D', 'I', 'S', 'C', 'O', 'V', 'E', 'R', '\n'];
    assert(req@ =~= request_text());
    if chars_eq(t, req.as_slice()) {
        return out;
    }
    proof {
        lemma_find_char_bounds(t@, '\n', 0);
    }
    let n = t.len();
    let part: Vec<char> = match find_char(t, '\n', 0) {
        Some(q) => if q > 0 {
            slice_vec(t, 0, q - 1)
        } else {
            slice_vec(t, 0, n)
        },
        None => slice_vec(t, 0, n),
    };
    assert(part@ == answer_part(t@));
    let pairs = kv_chars(part.as_slice());
    let tk: Vec<char> = vec!['T', 'Y', 'P', 'E'];
    let kk: Vec<char> = vec!['K', 'E', 'Y'];
    assert(tk@ =~= seq!['T', 'Y', 'P', 'E']);
    assert(kk@ =~= seq!['K', 'E', 'Y']);
    let ty = value_of_exec(&pairs, tk.as_slice(), "Unknown");
    let key = value_of_exec(&pairs, kk.as_slice(), "Unknown");
    let no_mac: Vec<char> = Vec::new();
    out.push(make_device("360Vision", 1, from, no_mac.as_slice(), ty.as_slice(), key.as_slice()));
    assert(views(out@) =~= vision_devices(from, t@));
    out
}

/// The devices of a datagram from `from`, decoded leniently; `None` for an
/// answer that cannot be read (see `answer_ok`).
pub fn parse(from: IpAddr, data: &[u8]) -> (r: Option<Vec<Device>>)
    ensures
        match r {
            Some(devs) => answer_ok(lossy_utf8(data@)) && views(devs@) == vision_devices(from, lossy_utf8(data@)),
            None => !answer_ok(lossy_utf8(data@)),
        },
{
    let t = utf8_lossy(data);
    if !answer_ok_exec(t.as_slice()) {
        return None;
    }
    Some(parse_text(from, t.as_slice()))
}

fn answer_ok_exec(t: &[char]) -> (ok: bool)
    ensures
        ok == answer_ok(t@),
{
    let req: Vec<char> = vec!['D', 'I', 'S', 'C', 'O', 'V', 'E', 'R', '\n'];
    assert(req@ =~= request_text());
    if chars_eq(t, req.as_slice()) {
        return true;
    }
    proof {
        lemma_find_char_bounds(t@, '\n', 0);
    }
    match find_char(t, '\n', 0) {
        Some(q) => q == 0 || (t[q - 1] as u32) < 0x80,
        None => true,
    }
}

} // verus!
