//! IP addresses as plain integers, with the text grammar and display rules
//! of the standard library's address types.

use vstd::prelude::*;
use crate::text::{decimal, push_decimal, string_from_chars, str_chars};

verus! {

/// An IPv4 address (four octets) or an IPv6 address (eight 16-bit segments),
/// most significant first.
#[derive(Clone, Copy, Debug, PartialEq, Eq, Structural)]
pub enum IpAddr {
    V4(u8, u8, u8, u8),
    V6(u16, u16, u16, u16, u16, u16, u16, u16),
}

/// The eight segments of an IPv6 address.
pub open spec fn segs_of(ip: IpAddr) -> Seq<u16> {
    match ip {
        IpAddr::V6(a, b, c, d, e, f, g, h) => seq![a, b, c, d, e, f, g, h],
        IpAddr::V4(..) => Seq::empty(),
    }
}

/// IPv6 address from eight segments.
pub open spec fn v6_of(g: Seq<u16>) -> IpAddr {
    IpAddr::V6(g[0], g[1], g[2], g[3], g[4], g[5], g[6], g[7])
}

/// IPv6 address from sixteen bytes in network order.
pub open spec fn v6_of_bytes(b: Seq<u8>) -> IpAddr {
    v6_of(Seq::new(8, |k: int| (b[2 * k] as int * 256 + b[2 * k + 1] as int) as u16))
}

pub fn v6_from_bytes(b: &[u8]) -> (ip: IpAddr)
    requires
        b@.len() >= 16,
    ensures
        ip == v6_of_bytes(b@),
{
    IpAddr::V6(
        b[0] as u16 * 256 + b[1] as u16,
        b[2] as u16 * 256 + b[3] as u16,
        b[4] as u16 * 256 + b[5] as u16,
        b[6] as u16 * 256 + b[7] as u16,
        b[8] as u16 * 256 + b[9] as u16,
        b[10] as u16 * 256 + b[11] as u16,
        b[12] as u16 * 256 + b[13] as u16,
        b[14] as u16 * 256 + b[15] as u16,
    )
}

// ----------------------------------------------------------------------------
// Text grammar (the rules of std's `FromStr for IpAddr`).
// ----------------------------------------------------------------------------

/// Digit value of a character in radix 10 or 16 (either letter case).
pub open spec fn digit_value(c: char, radix: int) -> Option<int> {
    if '0' <= c && c <= '9' {
        Some(c as int - 48)
    } else if radix == 16 && 'a' <= c && c <= 'f' {
        Some(c as int - 87)
    } else if radix == 16 && 'A' <= c && c <= 'F' {
        Some(c as int - 55)
    } else {
        None
    }
}

/// Number of consecutive digits at `pos`, at most `maxd`.
pub open spec fn digit_run(s: Seq<char>, pos: int, radix: int, maxd: int) -> int
    decreases maxd,
{
    if maxd <= 0 || pos < 0 || pos >= s.len() || digit_value(s[pos], radix) is None {
        0
    } else {
        1 + digit_run(s, pos + 1, radix, maxd - 1)
    }
}

/// Value of the `n` digits at `pos`.
pub open spec fn digits_value(s: Seq<char>, pos: int, radix: int, n: int) -> int
    decreases n,
{
    if n <= 0 {
        0
    } else {
        digits_value(s, pos, radix, n - 1) * radix + digit_value(s[pos + n - 1], radix)->0
    }
}

/// A number of at most `maxd` digits that must not exceed `max`; with
/// `allow_zero_prefix` false a leading `0` is only accepted alone.
/// Yields the value and the position after it.
pub open spec fn read_number(
    s: Seq<char>,
    pos: int,
    radix: int,
    maxd: int,
    allow_zero_prefix: bool,
    max: int,
) -> Option<(int, int)> {
    let n = digit_run(s, pos, radix, maxd);
    let v = digits_value(s, pos, radix, n);
    if n == 0 {
        None
    } else if v > max {
        None
    } else if !allow_zero_prefix && s[pos] == '0' && n > 1 {
        None
    } else {
        Some((v, pos + n))
    }
}

pub open spec fn char_at(s: Seq<char>, pos: int, c: char) -> bool {
    0 <= pos < s.len() && s[pos] == c
}

/// Dotted-quad IPv4 at `pos`: four decimal octets (no leading zeros).
pub open spec fn read_v4(s: Seq<char>, pos: int) -> Option<((u8, u8, u8, u8), int)> {
    match read_number(s, pos, 10, 3, false, 255) {
        None => None,
        Some((a, p1)) => if !char_at(s, p1, '.') {
            None
        } else {
            match read_number(s, p1 + 1, 10, 3, false, 255) {
                None => None,
                Some((b, p2)) => if !char_at(s, p2, '.') {
                    None
                } else {
                    match read_number(s, p2 + 1, 10, 3, false, 255) {
                        None => None,
                        Some((c, p3)) => if !char_at(s, p3, '.') {
                            None
                        } else {
                            match read_number(s, p3 + 1, 10, 3, false, 255) {
                                None => None,
                                Some((d, p4)) => Some(((a as u8, b as u8, c as u8, d as u8), p4)),
                            }
                        },
                    }
                },
            }
        },
    }
}

/// Reads up to `limit - i` further colon-separated groups (the `i`-th group
/// needs a `:` before it unless `i == 0`); an embedded dotted quad counts as
/// two groups and ends the list. Yields the groups, whether a dotted quad
/// ended them, and the position after them.
pub open spec fn read_groups(s: Seq<char>, pos: int, i: int, limit: int) -> (Seq<u16>, bool, int)
    decreases limit - i,
{
    if i >= limit {
        (Seq::empty(), false, pos)
    } else {
        let sep_ok = i == 0 || char_at(s, pos, ':');
        let start = if i == 0 { pos } else { pos + 1 };
        let v4 = if sep_ok && i < limit - 1 { read_v4(s, start) } else { None };
        match v4 {
            Some(((a, b, c, d), p)) => (
                seq![(a as int * 256 + b as int) as u16, (c as int * 256 + d as int) as u16],
                true,
                p,
            ),
            None => {
                let g = if sep_ok { read_number(s, start, 16, 4, true, 65535) } else { None };
                match g {
                    None => (Seq::empty(), false, pos),
                    Some((v, p)) => {
                        let rest = read_groups(s, p, i + 1, limit);
                        (seq![v as u16] + rest.0, rest.1, rest.2)
                    },
                }
            },
        }
    }
}

/// IPv6 text at the start of `s`: up to eight groups, or a head and a tail
/// around one `::`. Yields the segments and the position after them.
pub open spec fn read_v6(s: Seq<char>) -> Option<(Seq<u16>, int)> {
    let (head, head_v4, p) = read_groups(s, 0, 0, 8);
    if head.len() == 8 {
        Some((head, p))
    } else if head_v4 {
        None
    } else if !(char_at(s, p, ':') && char_at(s, p + 1, ':')) {
        None
    } else {
        let limit = 8 - (head.len() + 1);
        let (tail, _tail_v4, q) = read_groups(s, p + 2, 0, limit);
        Some((head + Seq::new((8 - head.len() - tail.len()) as nat, |k: int| 0u16) + tail, q))
    }
}

/// The address a text denotes: a dotted quad, else IPv6 text, in either case
/// covering the whole text.
pub open spec fn ip_parse(s: Seq<char>) -> Option<IpAddr> {
    match read_v4(s, 0) {
        Some(((a, b, c, d), p)) => if p == s.len() {
            Some(IpAddr::V4(a, b, c, d))
        } else {
            None
        },
        None => match read_v6(s) {
            Some((g, q)) => if q == s.len() {
                Some(v6_of(g))
            } else {
                None
            },
            None => None,
        },
    }
}

// ----------------------------------------------------------------------------
// Executable parser.
// ----------------------------------------------------------------------------

fn digit_value_exec(c: char, radix: u32) -> (r: Option<u32>)
    requires
        radix == 10 || radix == 16,
    ensures
        r matches Some(v) ==> digit_value(c, radix as int) == Some(v as int) && v < radix,
        r is None ==> digit_value(c, radix as int) is None,
{
    if '0' <= c && c <= '9' {
        Some(c as u32 - 48)
    } else if radix == 16 && 'a' <= c && c <= 'f' {
        Some(c as u32 - 87)
    } else if radix == 16 && 'A' <= c && c <= 'F' {
        Some(c as u32 - 55)
    } else {
        None
    }
}

proof fn lemma_digit_run_bounds(s: Seq<char>, pos: int, radix: int, maxd: int)
    ensures
        0 <= digit_run(s, pos, radix, maxd),
        maxd >= 0 ==> digit_run(s, pos, radix, maxd) <= maxd,
        0 <= pos ==> pos + digit_run(s, pos, radix, maxd) <= s.len() || digit_run(s, pos, radix, maxd) == 0,
        forall|k: int| 0 <= k < digit_run(s, pos, radix, maxd) ==> #[trigger] digit_value(s[pos + k], radix) is Some,
    decreases maxd,
{
    if maxd <= 0 || pos < 0 || pos >= s.len() || digit_value(s[pos], radix) is None {
    } else {
        lemma_digit_run_bounds(s, pos + 1, radix, maxd - 1);
        assert forall|k: int| 0 <= k < digit_run(s, pos, radix, maxd) implies #[trigger] digit_value(s[pos + k], radix) is Some by {
            if k > 0 {
                assert(digit_value(s[(pos + 1) + (k - 1)], radix) is Some);
            }
        }
    }
}

proof fn lemma_digits_value_nonneg(s: Seq<char>, pos: int, radix: int, n: int)
    requires
        radix > 0,
        forall|k: int| 0 <= k < n ==> #[trigger] digit_value(s[pos + k], radix) is Some,
    ensures
        digits_value(s, pos, radix, n) >= 0,
    decreases n,
{
    if n > 0 {
        lemma_digits_value_nonneg(s, pos, radix, n - 1);
        assert(digit_value(s[pos + (n - 1)], radix) is Some);
        let d = digit_value(s[pos + n - 1], radix)->0;
        assert(d >= 0);
        assert(digits_value(s, pos, radix, n - 1) * radix >= 0) by (nonlinear_arith)
            requires digits_value(s, pos, radix, n - 1) >= 0, radix > 0;
    }
}

/// Reads a number as `read_number` describes.
fn read_number_exec(
    s: &[char],
    pos: usize,
    radix: u32,
    maxd: usize,
    allow_zero_prefix: bool,
    max: u32,
) -> (r: Option<(u32, usize)>)
    requires
        radix == 10 || radix == 16,
        maxd <= 4,
        max <= 65535,
        s@.len() < usize::MAX - 8,
    ensures
        r matches Some((v, p)) ==> read_number(
            s@,
            pos as int,
            radix as int,
            maxd as int,
            allow_zero_prefix,
            max as int,
        ) == Some((v as int, p as int)),
        r is None ==> read_number(s@, pos as int, radix as int, maxd as int, allow_zero_prefix, max as int) is None,
{
    let ghost gs = s@;
    let mut n: usize = 0;
    let mut v: u32 = 0;
    let mut over = false;
    let mut go = true;
    proof {
        lemma_digit_run_bounds(gs, pos as int, radix as int, maxd as int);
    }
    while go && n < maxd && pos + n < s.len()
        invariant
            !go ==> digit_run(gs, pos + n, radix as int, maxd - n) == 0,
            n <= maxd <= 4,
            radix == 10 || radix == 16,
            s@ == gs,
            s@.len() < usize::MAX - 8,
            pos + n <= s@.len() || n == 0,
            digit_run(gs, pos as int, radix as int, maxd as int) == n + digit_run(gs, pos + n, radix as int, maxd - n),
            !over ==> v as int == digits_value(gs, pos as int, radix as int, n as int),
            !over ==> v <= max,
            over ==> digits_value(gs, pos as int, radix as int, n as int) > max,
            forall|k: int| 0 <= k < n ==> #[trigger] digit_value(gs[pos + k], radix as int) is Some,
            max <= 65535,
        decreases maxd - n + (if go { 1int } else { 0int }),
    {
        let d = digit_value_exec(s[pos + n], radix);
        match d {
            None => {
                assert(digit_run(gs, pos + n, radix as int, maxd - n) == 0);
                go = false;
            }
            Some(dv) => {
                proof {
                    assert(digit_run(gs, pos + n, radix as int, maxd - n)
                        == 1 + digit_run(gs, pos + n + 1, radix as int, maxd - n - 1));
                    lemma_digits_value_nonneg(gs, pos as int, radix as int, n as int);
                    assert(gs[pos + (n + 1) - 1] == gs[pos + n]);
                    assert(digits_value(gs, pos as int, radix as int, (n + 1) as int)
                        == digits_value(gs, pos as int, radix as int, n as int) * radix + dv);
                    assert(digits_value(gs, pos as int, radix as int, n as int) * radix
                        >= digits_value(gs, pos as int, radix as int, n as int)) by (nonlinear_arith)
                        requires digits_value(gs, pos as int, radix as int, n as int) >= 0, radix >= 1;
                    assert forall|k: int| 0 <= k < n + 1 implies #[trigger] digit_value(gs[pos + k], radix as int) is Some by {
                        if k == n {
                        }
                    }
                }
                if !over {
                    let nv = v as u64 * radix as u64 + dv as u64;
                    if nv > max as u64 {
                        over = true;
                    } else {
                        v = nv as u32;
                    }
                }
                n += 1;
            }
        }
    }
    proof {
        lemma_digit_run_bounds(gs, pos as int, radix as int, maxd as int);
        if go {
            assert(digit_run(gs, pos + n, radix as int, maxd - n) == 0);
        }
        assert(digit_run(gs, pos as int, radix as int, maxd as int) == n);
    }
    if n == 0 || over {
        None
    } else if !allow_zero_prefix && s[pos] == '0' && n > 1 {
        None
    } else {
        Some((v, pos + n))
    }
}

fn char_at_exec(s: &[char], pos: usize, c: char) -> (r: bool)
    ensures
        r == char_at(s@, pos as int, c),
{
    pos < s.len() && s[pos] == c
}

fn read_v4_exec(s: &[char], pos: usize) -> (r: Option<((u8, u8, u8, u8), usize)>)
    requires
        s@.len() < usize::MAX - 8,
    ensures
        r matches Some((o, p)) ==> read_v4(s@, pos as int) == Some((o, p as int)),
        r is None ==> read_v4(s@, pos as int) is None,
{
    let (a, p1) = match read_number_exec(s, pos, 10, 3, false, 255) {
        None => return None,
        Some(x) => x,
    };
    if !char_at_exec(s, p1, '.') {
        return None;
    }
    let (b, p2) = match read_number_exec(s, p1 + 1, 10, 3, false, 255) {
        None => return None,
        Some(x) => x,
    };
    if !char_at_exec(s, p2, '.') {
        return None;
    }
    let (c, p3) = match read_number_exec(s, p2 + 1, 10, 3, false, 255) {
        None => return None,
        Some(x) => x,
    };
    if !char_at_exec(s, p3, '.') {
        return None;
    }
    let (d, p4) = match read_number_exec(s, p3 + 1, 10, 3, false, 255) {
        None => return None,
        Some(x) => x,
    };
    Some(((a as u8, b as u8, c as u8, d as u8), p4))
}

proof fn lemma_read_number_pos(s: Seq<char>, pos: int, radix: int, maxd: int, az: bool, max: int)
    requires
        0 <= pos,
        maxd >= 0,
    ensures
        read_number(s, pos, radix, maxd, az, max) matches Some((v, p)) ==> pos < p <= s.len() && p <= pos + maxd,
{
    lemma_digit_run_bounds(s, pos, radix, maxd);
}

proof fn lemma_read_v4_pos(s: Seq<char>, pos: int)
    requires
        0 <= pos,
    ensures
        read_v4(s, pos) matches Some((o, p)) ==> pos < p <= s.len(),
{
    lemma_read_number_pos(s, pos, 10, 3, false, 255);
    if let Some((a, p1)) = read_number(s, pos, 10, 3, false, 255) {
        lemma_read_number_pos(s, p1 + 1, 10, 3, false, 255);
        if let Some((b, p2)) = read_number(s, p1 + 1, 10, 3, false, 255) {
            lemma_read_number_pos(s, p2 + 1, 10, 3, false, 255);
            if let Some((c, p3)) = read_number(s, p2 + 1, 10, 3, false, 255) {
                lemma_read_number_pos(s, p3 + 1, 10, 3, false, 255);
            }
        }
    }
}

proof fn lemma_read_groups(s: Seq<char>, pos: int, i: int, limit: int)
    requires
        0 <= pos <= s.len(),
        0 <= i <= limit,
    ensures
        read_groups(s, pos, i, limit).0.len() <= limit - i,
        pos <= read_groups(s, pos, i, limit).2 <= s.len(),
        read_groups(s, pos, i, limit).1 ==> read_groups(s, pos, i, limit).0.len() >= 2,
    decreases limit - i,
{
    if i < limit {
        let sep_ok = i == 0 || char_at(s, pos, ':');
        let start = if i == 0 { pos } else { pos + 1 };
        lemma_read_v4_pos(s, start);
        lemma_read_number_pos(s, start, 16, 4, true, 65535);
        let v4 = if sep_ok && i < limit - 1 { read_v4(s, start) } else { None };
        if v4 is None {
            let g = if sep_ok { read_number(s, start, 16, 4, true, 65535) } else { None };
            if let Some((v, p)) = g {
                lemma_read_groups(s, p, i + 1, limit);
            }
        }
    }
}

fn read_groups_exec(s: &[char], pos: usize, i: usize, limit: usize) -> (r: (Vec<u16>, bool, usize))
    requires
        s@.len() < usize::MAX - 8,
        pos <= s@.len(),
        i <= limit <= 8,
    ensures
        (r.0@, r.1, r.2 as int) == read_groups(s@, pos as int, i as int, limit as int),
    decreases limit - i,
{
    if i >= limit {
        return (Vec::new(), false, pos);
    }
    let sep_ok = i == 0 || char_at_exec(s, pos, ':');
    let start = if i == 0 { pos } else { pos + 1 };
    if sep_ok && i + 1 < limit {
        if let Some(((a, b, c, d), p)) = read_v4_exec(s, start) {
            let mut g: Vec<u16> = Vec::new();
            g.push(a as u16 * 256 + b as u16);
            g.push(c as u16 * 256 + d as u16);
            proof {
                assert(g@ =~= seq![(a as int * 256 + b as int) as u16, (c as int * 256 + d as int) as u16]);
            }
            return (g, true, p);
        }
    }
    let g = if sep_ok { read_number_exec(s, start, 16, 4, true, 65535) } else { None };
    match g {
        None => (Vec::new(), false, pos),
        Some((v, p)) => {
            proof {
                lemma_read_number_pos(s@, start as int, 16, 4, true, 65535);
            }
            let (rest, flag, q) = read_groups_exec(s, p, i + 1, limit);
            let mut out: Vec<u16> = Vec::new();
            out.push(v as u16);
            let mut k: usize = 0;
            while k < rest.len()
                invariant
                    k <= rest@.len(),
                    out@ == seq![v as u16] + rest@.subrange(0, k as int),
                decreases rest@.len() - k,
            {
                out.push(rest[k]);
                k += 1;
                assert(out@ =~= seq![v as u16] + rest@.subrange(0, k as int));
            }
            assert(rest@.subrange(0, rest@.len() as int) =~= rest@);
            (out, flag, q)
        },
    }
}

fn read_v6_exec(s: &[char]) -> (r: Option<(Vec<u16>, usize)>)
    requires
        s@.len() < usize::MAX - 8,
    ensures
        r matches Some((g, p)) ==> read_v6(s@) == Some((g@, p as int)),
        r is None ==> read_v6(s@) is None,
{
    let (head, head_v4, p) = read_groups_exec(s, 0, 0, 8);
    proof {
        lemma_read_groups(s@, 0, 0, 8);
    }
    if head.len() == 8 {
        return Some((head, p));
    }
    if head_v4 {
        return None;
    }
    if !(char_at_exec(s, p, ':') && char_at_exec(s, p + 1, ':')) {
        return None;
    }
    let limit = 8 - (head.len() + 1);
    let (tail, _tv4, q) = read_groups_exec(s, p + 2, 0, limit);
    proof {
        lemma_read_groups(s@, p + 2, 0, limit as int);
    }
    let zeros = 8 - head.len() - tail.len();
    let mut out = head;
    let ghost h = out@;
    let mut k: usize = 0;
    while k < zeros
        invariant
            k <= zeros,
            out@ == h + Seq::new(k as nat, |j: int| 0u16),
        decreases zeros - k,
    {
        out.push(0);
        k += 1;
        assert(out@ =~= h + Seq::new(k as nat, |j: int| 0u16));
    }
    let ghost hz = out@;
    let mut k: usize = 0;
    while k < tail.len()
        invariant
            k <= tail@.len(),
            out@ == hz + tail@.subrange(0, k as int),
        decreases tail@.len() - k,
    {
        out.push(tail[k]);
        k += 1;
        assert(out@ =~= hz + tail@.subrange(0, k as int));
    }
    assert(tail@.subrange(0, tail@.len() as int) =~= tail@);
    Some((out, q))
}

/// Parses the text of an IPv4 or IPv6 address.
pub fn parse_ip_chars(s: &[char]) -> (r: Option<IpAddr>)
    ensures
        r == ip_parse(s@),
{
    if s.len() >= usize::MAX - 8 {
        proof {
            lemma_long_text_not_ip(s@);
        }
        return None;
    }
    match read_v4_exec(s, 0) {
        Some(((a, b, c, d), p)) => {
            if p == s.len() {
                Some(IpAddr::V4(a, b, c, d))
            } else {
                None
            }
        },
        None => match read_v6_exec(s) {
            Some((g, q)) => {
                if q == s.len() {
                    proof {
                        lemma_read_groups(s@, 0, 0, 8);
                    }
                    assert(g@.len() == 8) by {
                        lemma_v6_len(s@);
                    }
                    Some(IpAddr::V6(g[0], g[1], g[2], g[3], g[4], g[5], g[6], g[7]))
                } else {
                    None
                }
            },
            None => None,
        },
    }
}

proof fn lemma_v6_len(s: Seq<char>)
    ensures
        read_v6(s) matches Some((g, q)) ==> g.len() == 8,
{
    lemma_read_groups(s, 0, 0, 8);
    let (head, head_v4, p) = read_groups(s, 0, 0, 8);
    if head.len() != 8 && !head_v4 && char_at(s, p, ':') && char_at(s, p + 1, ':') {
        let limit = 8 - (head.len() + 1);
        lemma_read_groups(s, p + 2, 0, limit);
    }
}

proof fn lemma_long_text_not_ip(s: Seq<char>)
    requires
        s.len() >= usize::MAX - 8,
    ensures
        ip_parse(s) is None,
{
    lemma_read_v4_pos(s, 0);
    if let Some(((a, b, c, d), p)) = read_v4(s, 0) {
        lemma_read_number_pos(s, 0, 10, 3, false, 255);
        let (a1, p1) = read_number(s, 0, 10, 3, false, 255)->0;
        lemma_read_number_pos(s, p1 + 1, 10, 3, false, 255);
        let (b1, p2) = read_number(s, p1 + 1, 10, 3, false, 255)->0;
        lemma_read_number_pos(s, p2 + 1, 10, 3, false, 255);
        let (c1, p3) = read_number(s, p2 + 1, 10, 3, false, 255)->0;
        lemma_read_number_pos(s, p3 + 1, 10, 3, false, 255);
    } else {
        lemma_v6_bounded(s);
    }
}

proof fn lemma_groups_span(s: Seq<char>, pos: int, i: int, limit: int)
    requires
        0 <= pos <= s.len(),
        0 <= i <= limit,
    ensures
        read_groups(s, pos, i, limit).2 <= pos + 16 * (limit - i),
    decreases limit - i,
{
    if i < limit {
        let sep_ok = i == 0 || char_at(s, pos, ':');
        let start = if i == 0 { pos } else { pos + 1 };
        lemma_read_v4_span(s, start);
        lemma_read_number_pos(s, start, 16, 4, true, 65535);
        let v4 = if sep_ok && i < limit - 1 { read_v4(s, start) } else { None };
        if v4 is None {
            let g = if sep_ok { read_number(s, start, 16, 4, true, 65535) } else { None };
            if let Some((v, p)) = g {
                lemma_groups_span(s, p, i + 1, limit);
            }
        }
    }
}

proof fn lemma_read_v4_span(s: Seq<char>, pos: int)
    requires
        0 <= pos,
    ensures
        read_v4(s, pos) matches Some((o, p)) ==> p <= pos + 15,
{
    lemma_read_number_pos(s, pos, 10, 3, false, 255);
    if let Some((a, p1)) = read_number(s, pos, 10, 3, false, 255) {
        lemma_read_number_pos(s, p1 + 1, 10, 3, false, 255);
        if let Some((b, p2)) = read_number(s, p1 + 1, 10, 3, false, 255) {
            lemma_read_number_pos(s, p2 + 1, 10, 3, false, 255);
            if let Some((c, p3)) = read_number(s, p2 + 1, 10, 3, false, 255) {
                lemma_read_number_pos(s, p3 + 1, 10, 3, false, 255);
            }
        }
    }
}

proof fn lemma_v6_bounded(s: Seq<char>)
    requires
        s.len() >= 1000,
    ensures
        read_v6(s) matches Some((g, q)) ==> q < s.len(),
{
    lemma_read_groups(s, 0, 0, 8);
    lemma_groups_span(s, 0, 0, 8);
    let (head, head_v4, p) = read_groups(s, 0, 0, 8);
    if head.len() != 8 && !head_v4 && char_at(s, p, ':') && char_at(s, p + 1, ':') {
        let limit = 8 - (head.len() + 1);
        lemma_groups_span(s, p + 2, 0, limit);
    }
}

// ----------------------------------------------------------------------------
// Display text (the rules of std's `Display` for addresses).
// ----------------------------------------------------------------------------

/// Lower-case hexadecimal digits of a natural number, without leading zeros.
pub open spec fn hex_lower(n: nat) -> Seq<char>
    decreases n,
{
    if n < 16 {
        seq![lhex(n as int)]
    } else {
        hex_lower(n / 16) + seq![lhex((n % 16) as int)]
    }
}

pub open spec fn lhex(d: int) -> char {
    if d < 10 {
        (48 + d) as char
    } else {
        (87 + d) as char
    }
}

/// Segments in lower-case hex joined by `:`.
pub open spec fn join_hex(g: Seq<u16>) -> Seq<char>
    decreases g.len(),
{
    if g.len() == 0 {
        Seq::empty()
    } else if g.len() == 1 {
        hex_lower(g[0] as nat)
    } else {
        join_hex(g.drop_last()) + seq![':'] + hex_lower(g.last() as nat)
    }
}

/// Start and length of the first longest run of zero segments, scanning
/// from `i` with the current run `(cs, cl)` and the best so far `(bs, bl)`.
pub open spec fn zero_run(g: Seq<u16>, i: int, cs: int, cl: int, bs: int, bl: int) -> (int, int)
    decreases g.len() - i,
{
    if i >= g.len() || i < 0 {
        (bs, bl)
    } else if g[i] == 0 {
        let ns = if cl == 0 { i } else { cs };
        let nl = cl + 1;
        if nl > bl {
            zero_run(g, i + 1, ns, nl, ns, nl)
        } else {
            zero_run(g, i + 1, ns, nl, bs, bl)
        }
    } else {
        zero_run(g, i + 1, 0, 0, bs, bl)
    }
}

/// Display text of eight IPv6 segments: an IPv4-mapped address as
/// `::ffff:a.b.c.d`, otherwise lower-case hex with the first longest run of
/// two or more zero segments written as `::`.
pub open spec fn v6_text(g: Seq<u16>) -> Seq<char> {
    if g[0] == 0 && g[1] == 0 && g[2] == 0 && g[3] == 0 && g[4] == 0 && g[5] == 0xffff {
        seq![':', ':', 'f', 'f', 'f', 'f', ':'] + v4_text(
            (g[6] / 256) as u8,
            (g[6] % 256) as u8,
            (g[7] / 256) as u8,
            (g[7] % 256) as u8,
        )
    } else {
        let (start, len) = zero_run(g, 0, 0, 0, 0, 0);
        if len > 1 {
            join_hex(g.subrange(0, start)) + seq![':', ':'] + join_hex(g.subrange(start + len, 8))
        } else {
            join_hex(g)
        }
    }
}

/// Dotted-decimal text of four octets.
pub open spec fn v4_text(a: u8, b: u8, c: u8, d: u8) -> Seq<char> {
    decimal(a as nat) + seq!['.'] + decimal(b as nat) + seq!['.'] + decimal(c as nat) + seq!['.']
        + decimal(d as nat)
}

/// Display text of an address.
pub open spec fn ip_text(ip: IpAddr) -> Seq<char> {
    match ip {
        IpAddr::V4(a, b, c, d) => v4_text(a, b, c, d),
        IpAddr::V6(..) => v6_text(segs_of(ip)),
    }
}

fn push_hex_lower(out: &mut Vec<char>, n: u16)
    ensures
        final(out)@ == old(out)@ + hex_lower(n as nat),
    decreases n,
{
    if n < 16 {
        out.push(lhex_exec(n as u8));
    } else {
        push_hex_lower(out, n / 16);
        out.push(lhex_exec((n % 16) as u8));
    }
    assert(final(out)@ =~= old(out)@ + hex_lower(n as nat));
}

fn lhex_exec(d: u8) -> (c: char)
    requires
        d < 16,
    ensures
        c == lhex(d as int),
{
    if d < 10 {
        (48 + d) as char
    } else {
        (87 + d) as char
    }
}

fn push_join_hex(out: &mut Vec<char>, g: &[u16], from: usize, to: usize)
    requires
        from <= to <= g@.len(),
    ensures
        final(out)@ == old(out)@ + join_hex(g@.subrange(from as int, to as int)),
{
    let ghost o = old(out)@;
    let mut k = from;
    while k < to
        invariant
            from <= k <= to <= g@.len(),
            out@ == o + join_hex(g@.subrange(from as int, k as int)),
        decreases to - k,
    {
        if k > from {
            out.push(':');
        }
        push_hex_lower(out, g[k]);
        k += 1;
        proof {
            let sub = g@.subrange(from as int, k as int);
            assert(sub.drop_last() =~= g@.subrange(from as int, k - 1));
        }
        assert(out@ =~= o + join_hex(g@.subrange(from as int, k as int)));
    }
}

fn push_v4_text(out: &mut Vec<char>, a: u8, b: u8, c: u8, d: u8)
    ensures
        final(out)@ == old(out)@ + v4_text(a, b, c, d),
{
    let ghost o = old(out)@;
    push_decimal(out, a as u64);
    out.push('.');
    push_decimal(out, b as u64);
    out.push('.');
    push_decimal(out, c as u64);
    out.push('.');
    push_decimal(out, d as u64);
    assert(out@ =~= o + v4_text(a, b, c, d));
}

fn zero_run_exec(g: &[u16]) -> (r: (usize, usize))
    requires
        g@.len() == 8,
    ensures
        (r.0 as int, r.1 as int) == zero_run(g@, 0, 0, 0, 0, 0),
        r.0 + r.1 <= 8,
{
    let mut i: usize = 0;
    let mut cs: usize = 0;
    let mut cl: usize = 0;
    let mut bs: usize = 0;
    let mut bl: usize = 0;
    while i < 8
        invariant
            i <= 8,
            g@.len() == 8,
            cs + cl <= i,
            bs + bl <= i,
            zero_run(g@, i as int, cs as int, cl as int, bs as int, bl as int) == zero_run(g@, 0, 0, 0, 0, 0),
        decreases 8 - i,
    {
        if g[i] == 0 {
            let ns = if cl == 0 { i } else { cs };
            let nl = cl + 1;
            if nl > bl {
                bs = ns;
                bl = nl;
            }
            cs = ns;
            cl = nl;
        } else {
            cs = 0;
            cl = 0;
        }
        i += 1;
    }
    (bs, bl)
}

impl IpAddr {
    /// Parses the text form of an IPv4 or IPv6 address.
    pub fn parse(s: &str) -> (r: Option<IpAddr>)
        ensures
            r == ip_parse(s@),
    {
        let chars = str_chars(s);
        parse_ip_chars(chars.as_slice())
    }

    /// Appends the display text of the address.
    pub fn push_text(&self, out: &mut Vec<char>)
        ensures
            final(out)@ == old(out)@ + ip_text(*self),
    {
        match *self {
            IpAddr::V4(a, b, c, d) => push_v4_text(out, a, b, c, d),
            IpAddr::V6(s0, s1, s2, s3, s4, s5, s6, s7) => {
                let ghost o = old(out)@;
                let g = [s0, s1, s2, s3, s4, s5, s6, s7];
                assert(g@ =~= segs_of(*self));
                if s0 == 0 && s1 == 0 && s2 == 0 && s3 == 0 && s4 == 0 && s5 == 0xffff {
                    out.push(':');
                    out.push(':');
                    out.push('f');
                    out.push('f');
                    out.push('f');
                    out.push('f');
                    out.push(':');
                    push_v4_text(out, (s6 / 256) as u8, (s6 % 256) as u8, (s7 / 256) as u8, (s7 % 256) as u8);
                    assert(out@ =~= o + ip_text(*self));
                } else {
                    let (start, len) = zero_run_exec(&g);
                    if len > 1 {
                        push_join_hex(out, &g, 0, start);
                        out.push(':');
                        out.push(':');
                        let ghost mid = out@;
                        push_join_hex(out, &g, start + len, 8);
                        assert(out@ =~= o + ip_text(*self));
                    } else {
                        push_join_hex(out, &g, 0, 8);
                        assert(g@.subrange(0, 8) =~= g@);
                        assert(out@ =~= o + ip_text(*self));
                    }
                }
            },
        }
    }

    /// Display text (dotted decimal for IPv4, canonical text for IPv6).
    pub fn to_text(&self) -> (s: String)
        ensures
            s@ == ip_text(*self),
    {
        let mut v: Vec<char> = Vec::new();
        self.push_text(&mut v);
        assert(v@ =~= ip_text(*self));
        string_from_chars(v.as_slice())
    }
}

} // verus!
