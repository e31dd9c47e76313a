//! UPnP SSDP (239.255.255.250:1900): HTTP-style answers with `USN` and
//! `SERVER` headers.

use vstd::prelude::*;
use crate::devices::{Device, DeviceView, views};
use crate::ip::IpAddr;
use crate::protocols::engines::{Engine, engine_name, engine_color, engine_ports};
use crate::protocols::common::{index_of, lemma_find_char_bounds, text_lines, split_lines, char_views, chars_eq,
    find_sub, find_sub_exec, lemma_find_sub_bounds, strip_prefix, strip_prefix_exec, make_device, lit};
use crate::text::{find_char, lossy_utf8, utf8_lossy, lower_char, to_lower_char, slice_vec, str_chars, trim, trim_exec};

verus! {

pub const PORT: u16 = 1900;

pub open spec fn lower(s: Seq<char>) -> Seq<char> {
    s.map_values(|c: char| lower_char(c))
}

/// The value of a header: among the non-empty lines after the first, the
/// first `name:value` whose trimmed name equals `variable` ignoring ASCII
/// case; the value trimmed. Empty when there is none.
pub open spec fn http_var_from(lines: Seq<Seq<char>>, variable: Seq<char>, i: int) -> Seq<char>
    decreases lines.len() - i,
{
    if i < 1 || i >= lines.len() {
        Seq::empty()
    } else {
        let l = lines[i];
        match index_of(l, ':') {
            Some(s) => if lower(trim(l.subrange(0, s))) == lower(variable) {
                trim(l.subrange(s + 1, l.len() as int))
            } else {
                http_var_from(lines, variable, i + 1)
            },
            None => http_var_from(lines, variable, i + 1),
        }
    }
}

pub open spec fn http_var(text: Seq<char>, variable: Seq<char>) -> Seq<char> {
    http_var_from(text_lines(text), variable, 1)
}

fn lower_exec(s: &[char]) -> (r: Vec<char>)
    ensures
        r@ == lower(s@),
{
    let mut r: Vec<char> = Vec::new();
    let mut i: usize = 0;
    while i < s.len()
        invariant
            i <= s@.len(),
            r@ == lower(s@.subrange(0, i as int)),
        decreases s@.len() - i,
    {
        r.push(to_lower_char(s[i]));
        i += 1;
        assert(r@ =~= lower(s@.subrange(0, i as int)));
    }
    assert(s@.subrange(0, s@.len() as int) =~= s@);
    r
}

fn extract_http_var(text: &[char], variable: &str) -> (r: Vec<char>)
    ensures
        r@ == http_var(text@, variable@),
{
    let lines = split_lines(text);
    let ghost ls = char_views(lines@);
    let v = str_chars(variable);
    let lv = lower_exec(v.as_slice());
    let mut i: usize = 1;
    while i < lines.len()
        invariant
            1 <= i,
            ls == char_views(lines@),
            ls == text_lines(text@),
            lv@ == lower(variable@),
            http_var(text@, variable@) == http_var_from(ls, variable@, i as int),
        decreases lines@.len() - i,
    {
        let l = lines[i].as_slice();
        assert(l@ == ls[i as int]);
        proof {
            lemma_find_char_bounds(l@, ':', 0);
        }
        match find_char(l, ':', 0) {
            Some(s) => {
                let head = slice_vec(l, 0, s);
                let name = trim_exec(head.as_slice());
                let ln = lower_exec(name.as_slice());
                if chars_eq(ln.as_slice(), lv.as_slice()) {
                    let tail = slice_vec(l, s + 1, l.len());
                    return trim_exec(tail.as_slice());
                }
            },
            None => {},
        }
        i += 1;
    }
    Vec::new()
}

// ----------------------------------------------------------------------------
// SERVER tokens.
// ----------------------------------------------------------------------------

pub open spec fn is_skip(c: char) -> bool {
    c == ',' || c == '/' || c == ' ' || c == '\t'
}

/// First index at or after `i` not skipped (or the length).
pub open spec fn skip_delims(s: Seq<char>, i: int) -> int
    decreases s.len() - i,
{
    if i < 0 || i >= s.len() || !is_skip(s[i]) {
        i
    } else {
        skip_delims(s, i + 1)
    }
}

/// First index at or after `i` holding one of `a`, `b` (or the length).
pub open spec fn until2(s: Seq<char>, i: int, a: char, b: char) -> int
    decreases s.len() - i,
{
    if i < 0 || i >= s.len() || s[i] == a || s[i] == b {
        i
    } else {
        until2(s, i + 1, a, b)
    }
}

/// The product tokens of a `SERVER` value from `i` on: each is a run
/// without `,` or `/`, extended by a `/version` part up to a space or
/// comma where at least one such character follows the slash; tokens are
/// trimmed and empty ones dropped.
pub open spec fn server_tokens(s: Seq<char>, i: int) -> Seq<Seq<char>>
    decreases s.len() - i,
{
    let st = skip_delims(s, i);
    if i < 0 || st < i || st >= s.len() {
        Seq::empty()
    } else {
        let e = until2(s, st, ',', '/');
        let next = if e + 1 < s.len() && s[e] == '/' && s[e + 1] != ' ' && s[e + 1] != ',' {
            until2(s, e + 1, ' ', ',')
        } else {
            e
        };
        if next <= st || next > s.len() {
            Seq::empty()
        } else {
            let t = trim(s.subrange(st, next));
            (if t.len() > 0 {
                seq![t]
            } else {
                Seq::empty()
            }) + server_tokens(s, next)
        }
    }
}

proof fn lemma_skip_delims(s: Seq<char>, i: int)
    requires
        0 <= i <= s.len(),
    ensures
        i <= skip_delims(s, i) <= s.len(),
        skip_delims(s, i) < s.len() ==> !is_skip(s[skip_delims(s, i)]),
    decreases s.len() - i,
{
    if i < s.len() && is_skip(s[i]) {
        lemma_skip_delims(s, i + 1);
    }
}

proof fn lemma_until2(s: Seq<char>, i: int, a: char, b: char)
    requires
        0 <= i <= s.len(),
    ensures
        i <= until2(s, i, a, b) <= s.len(),
        i < s.len() && s[i] != a && s[i] != b ==> until2(s, i, a, b) > i,
    decreases s.len() - i,
{
    if i < s.len() && s[i] != a && s[i] != b {
        lemma_until2(s, i + 1, a, b);
    }
}

fn until2_exec(s: &[char], i: usize, a: char, b: char) -> (r: usize)
    requires
        i <= s@.len(),
    ensures
        r as int == until2(s@, i as int, a, b),
    decreases s@.len() - i,
{
    if i >= s.len() || s[i] == a || s[i] == b {
        i
    } else {
        until2_exec(s, i + 1, a, b)
    }
}

/// The last product token of a `SERVER` value, if any.
fn last_server_token(s: &[char]) -> (r: Option<Vec<char>>)
    ensures
        match r {
            Some(t) => server_tokens(s@, 0).len() > 0 && t@ == server_tokens(s@, 0).last(),
            None => server_tokens(s@, 0).len() == 0,
        },
{
    let n = s.len();
    let mut last: Option<Vec<char>> = None;
    let mut i: usize = 0;
    let ghost mut done: Seq<Seq<char>> = Seq::empty();
    while i < n
        invariant
            i <= n,
            n == s@.len(),
            server_tokens(s@, 0) == done + server_tokens(s@, i as int),
            match last {
                Some(t) => done.len() > 0 && t@ == done.last(),
                None => done.len() == 0,
            },
        decreases n - i,
    {
        proof {
            lemma_skip_delims(s@, i as int);
        }
        let mut st = i;
        while st < n && (s[st] == ',' || s[st] == '/' || s[st] == ' ' || s[st] == '\t')
            invariant
                i <= st <= n,
                n == s@.len(),
                skip_delims(s@, st as int) == skip_delims(s@, i as int),
            decreases n - st,
        {
            st += 1;
        }
        if st >= n {
            assert(server_tokens(s@, i as int) =~= Seq::<Seq<char>>::empty());
            i = n;
        } else {
            proof {
                lemma_until2(s@, st as int, ',', '/');
            }
            let e = until2_exec(s, st, ',', '/');
            let next = if e < n && e + 1 < n && s[e] == '/' && s[e + 1] != ' ' && s[e + 1] != ',' {
                proof {
                    lemma_until2(s@, e + 1, ' ', ',');
                }
                until2_exec(s, e + 1, ' ', ',')
            } else {
                e
            };
            let tok = slice_vec(s, st, next);
            let t = trim_exec(tok.as_slice());
            proof {
                let tt = if t@.len() > 0 { seq![t@] } else { Seq::<Seq<char>>::empty() };
                assert(server_tokens(s@, i as int) == tt + server_tokens(s@, next as int));
                done = done + tt;
                assert(server_tokens(s@, 0) =~= done + server_tokens(s@, next as int));
            }
            if t.len() > 0 {
                last = Some(t);
            }
            i = next;
        }
    }
    proof {
        assert(server_tokens(s@, i as int) =~= Seq::<Seq<char>>::empty());
        assert(done =~= server_tokens(s@, 0));
    }
    last
}

/// The serial in a `USN`: the part before `::`, without a leading `uuid:`.
pub open spec fn uuid_of(usn: Seq<char>) -> Seq<char> {
    let s = match find_sub(usn, seq![':', ':'], 0) {
        Some(k) => usn.subrange(0, k),
        None => usn,
    };
    strip_prefix(s, "uuid:"@)
}

/// The device of an answer from `from` (decoded leniently): none without a
/// `USN`; the type is the last product token of `SERVER` (`anonymous` when
/// there is none), the serial the `USN`'s UUID; version 0.
pub open spec fn ssdp_devices(from: IpAddr, t: Seq<char>) -> Seq<DeviceView> {
    let usn = http_var(t, "USN"@);
    if usn.len() == 0 {
        Seq::empty()
    } else {
        let toks = server_tokens(http_var(t, "SERVER"@), 0);
        seq![DeviceView {
            protocol: "SSDP"@,
            version: 0,
            ip: from,
            mac: Seq::empty(),
            device_type: if toks.len() > 0 { toks.last() } else { "anonymous"@ },
            serial: uuid_of(usn),
        }]
    }
}

pub fn parse(from: IpAddr, data: &[u8]) -> (devs: Vec<Device>)
    ensures
        views(devs@) == ssdp_devices(from, lossy_utf8(data@)),
{
    let mut out: Vec<Device> = Vec::new();
    let t = utf8_lossy(data);
    let usn = extract_http_var(t.as_slice(), "USN");
    if usn.len() == 0 {
        return out;
    }
    let server = extract_http_var(t.as_slice(), "SERVER");
    let ty = match last_server_token(server.as_slice()) {
        Some(tok) => tok,
        None => lit("anonymous"),
    };
    let sep: Vec<char> = vec![':', ':'];
    assert(sep@ =~= seq![':', ':']);
    proof {
        lemma_find_sub_bounds(usn@, seq![':', ':'], 0);
    }
    let head = match find_sub_exec(usn.as_slice(), sep.as_slice(), 0) {
        Some(k) => slice_vec(usn.as_slice(), 0, k),
        None => {
            let h = slice_vec(usn.as_slice(), 0, usn.len());
            assert(h@ =~= usn@);
            h
        },
    };
    let serial = strip_prefix_exec(head.as_slice(), "uuid:");
    assert(serial@ == uuid_of(usn@));
    let no_mac: Vec<char> = Vec::new();
    out.push(make_device("SSDP", 0, from, no_mac.as_slice(), ty.as_slice(), serial.as_slice()));
    assert(views(out@) =~= ssdp_devices(from, lossy_utf8(data@)));
    out
}

/// The SSDP engine.
pub struct Ssdp;

impl Ssdp {
    pub fn name(&self) -> (r: &'static str)
        ensures
            r@ == engine_name(Engine::Ssdp),
    {
        Engine::Ssdp.name()
    }

    /// The colour of the engine's rows (`0xRRGGBB`).
    pub fn color(&self) -> (r: u32)
        ensures
            r == engine_color(Engine::Ssdp),
    {
        Engine::Ssdp.color()
    }

    /// The local ports the engine reserves.
    pub fn used_ports(&self) -> (r: Vec<u16>)
        ensures
            r@ == engine_ports(Engine::Ssdp),
    {
        Engine::Ssdp.used_ports()
    }

    /// The devices a datagram from `from` reports.
    pub fn parse(&self, from: IpAddr, data: &[u8]) -> (devs: Vec<Device>)
        ensures
            views(devs@) == ssdp_devices(from, lossy_utf8(data@)),
    {
        parse(from, data)
    }
}

/// Two characters are the same letter up to ASCII case (or equal).
pub open spec fn case_variant(a: char, b: char) -> bool {
    ||| a == b
    ||| ('A' <= a && a <= 'Z' && b as int == a as int + 32)
    ||| ('A' <= b && b <= 'Z' && a as int == b as int + 32)
}

/// Two texts are equal up to the case of their ASCII letters.
pub open spec fn same_ignoring_case(a: Seq<char>, b: Seq<char>) -> bool {
    &&& a.len() == b.len()
    &&& forall|i: int| 0 <= i < a.len() ==> case_variant(#[trigger] a[i], b[i])
}

/// No colon in a text.
pub open spec fn no_colon(t: Seq<char>) -> bool {
    forall|i: int| 0 <= i < t.len() ==> t[i] != ':'
}

proof fn lemma_case_variant_lower(a: char, b: char)
    requires
        case_variant(a, b),
    ensures
        lower_char(a) == lower_char(b),
{
    if 'A' <= a && a <= 'Z' && b as int == a as int + 32 {
        vstd::utf8::char_u32_cast(b, ((a as u32) + 32) as u32);
    } else if 'A' <= b && b <= 'Z' && a as int == b as int + 32 {
        vstd::utf8::char_u32_cast(a, ((b as u32) + 32) as u32);
    }
}

proof fn lemma_same_ignoring_case_lower(a: Seq<char>, b: Seq<char>)
    requires
        same_ignoring_case(a, b),
    ensures
        lower(a) == lower(b),
{
    assert forall|i: int| 0 <= i < a.len() implies lower(a)[i] == lower(b)[i] by {
        lemma_case_variant_lower(a[i], b[i]);
    }
    assert(lower(a) =~= lower(b));
}

proof fn lemma_first_colon(s: Seq<char>, from: int, k: int)
    requires
        0 <= from <= k < s.len(),
        forall|i: int| from <= i < k ==> s[i] != ':',
        s[k] == ':',
    ensures
        crate::text::find_char_from(s, ':', from) == Some(k),
    decreases k - from,
{
    if from < k {
        lemma_first_colon(s, from + 1, k);
    }
}

proof fn lemma_header_line(n: Seq<char>, rest: Seq<char>)
    requires
        no_colon(n),
    ensures
        index_of(n + seq![':'] + rest, ':') == Some(n.len() as int),
        (n + seq![':'] + rest).subrange(0, n.len() as int) == n,
        (n + seq![':'] + rest).subrange(n.len() as int + 1, (n + seq![':'] + rest).len() as int) == rest,
{
    let l = n + seq![':'] + rest;
    lemma_first_colon(l, 0, n.len() as int);
    assert(l.subrange(0, n.len() as int) =~= n);
    assert(l.subrange(n.len() as int + 1, l.len() as int) =~= rest);
}

/// The header name asked for is compared without regard to ASCII case:
/// names that differ only in the case of their letters find the same value.
pub proof fn law_http_var_name_case(lines: Seq<Seq<char>>, v1: Seq<char>, v2: Seq<char>, i: int)
    requires
        same_ignoring_case(v1, v2),
    ensures
        http_var_from(lines, v1, i) == http_var_from(lines, v2, i),
    decreases lines.len() - i,
{
    lemma_same_ignoring_case_lower(v1, v2);
    if 1 <= i < lines.len() {
        law_http_var_name_case(lines, v1, v2, i + 1);
    }
}

/// The header names in the reply are compared without regard to ASCII case:
/// changing the case of a header line's name does not change what any
/// header lookup finds.
pub proof fn law_http_var_header_case(
    lines: Seq<Seq<char>>,
    j: int,
    n1: Seq<char>,
    n2: Seq<char>,
    rest: Seq<char>,
    v: Seq<char>,
    i: int,
)
    requires
        0 <= j < lines.len(),
        no_colon(n1),
        no_colon(n2),
        same_ignoring_case(trim(n1), trim(n2)),
        lines[j] == n1 + seq![':'] + rest,
    ensures
        http_var_from(lines, v, i) == http_var_from(lines.update(j, n2 + seq![':'] + rest), v, i),
    decreases lines.len() - i,
{
    let l2 = lines.update(j, n2 + seq![':'] + rest);
    if 1 <= i < lines.len() {
        law_http_var_header_case(lines, j, n1, n2, rest, v, i + 1);
        if i == j {
            lemma_header_line(n1, rest);
            lemma_header_line(n2, rest);
            lemma_same_ignoring_case_lower(trim(n1), trim(n2));
            assert(l2[i] == n2 + seq![':'] + rest);
        } else {
            assert(l2[i] == lines[i]);
        }
    }
}

/// The first header line (after the status line) whose name matches the
/// asked name up to ASCII case gives its trimmed value.
pub proof fn law_http_var_finds(lines: Seq<Seq<char>>, n: Seq<char>, rest: Seq<char>, v: Seq<char>)
    requires
        lines.len() >= 2,
        no_colon(n),
        lines[1] == n + seq![':'] + rest,
        same_ignoring_case(trim(n), v),
    ensures
        http_var_from(lines, v, 1) == trim(rest),
{
    lemma_header_line(n, rest);
    lemma_same_ignoring_case_lower(trim(n), v);
}

/// Over a whole reply text: names asked for that differ only in ASCII case
/// find the same value.
pub proof fn law_http_var_text_case(text: Seq<char>, v1: Seq<char>, v2: Seq<char>)
    requires
        same_ignoring_case(v1, v2),
    ensures
        http_var(text, v1) == http_var(text, v2),
{
    law_http_var_name_case(text_lines(text), v1, v2, 1);
}

} // verus!
