//! DNS name encoding and IDN (Punycode, RFC 3492) conversion for the mDNS queries.

use vstd::prelude::*;
use vstd::string::StringSliceAdditionalSpecFns;
use crate::text::{str_chars, string_from_chars, unicode_lower, unicode_lowercase};
use crate::ip::IpAddr;
use crate::config::Config;
use crate::devices::{Device, DeviceView, views};
use crate::iface::{autoconf_ip, is_autoconf};

verus! {

// ----------------------------------------------------------------------------
// DNS wire names.
// ----------------------------------------------------------------------------

/// First index at or after `p` holding a `.` byte, or the length.
pub open spec fn dot_from(b: Seq<u8>, p: int) -> int
    decreases b.len() - p,
{
    if p < 0 || p >= b.len() {
        b.len() as int
    } else if b[p] == 0x2e {
        p
    } else {
        dot_from(b, p + 1)
    }
}

/// The labels from `p` on, each as its length byte (modulo 256) and its
/// bytes, and the closing zero byte.
pub open spec fn labels_from(b: Seq<u8>, p: int) -> Seq<u8>
    decreases b.len() - p + 1,
{
    let k = dot_from(b, p);
    if p < 0 || k < p || k > b.len() {
        seq![0u8]
    } else {
        let label = seq![((k - p) % 256) as u8] + b.subrange(p, k);
        if k < b.len() {
            label + labels_from(b, k + 1)
        } else {
            label + seq![0u8]
        }
    }
}

/// The DNS wire form of a dotted name.
pub open spec fn dns_name(b: Seq<u8>) -> Seq<u8> {
    labels_from(b, 0)
}

proof fn lemma_dot_from(b: Seq<u8>, p: int)
    requires
        0 <= p <= b.len(),
    ensures
        p <= dot_from(b, p) <= b.len(),
    decreases b.len() - p,
{
    if p < b.len() && b[p] != 0x2e {
        lemma_dot_from(b, p + 1);
    }
}

proof fn lemma_labels_len(b: Seq<u8>, p: int)
    requires
        0 <= p <= b.len(),
    ensures
        labels_from(b, p).len() == b.len() - p + 2,
        labels_from(b, p).last() == 0u8,
    decreases b.len() - p + 1,
{
    lemma_dot_from(b, p);
    let k = dot_from(b, p);
    if k < b.len() {
        lemma_labels_len(b, k + 1);
    }
}

/// The wire form of a name is two bytes longer than the name: one length
/// byte per label replaces each dot, plus the first length byte and the
/// closing zero, which is its last byte.
pub proof fn law_dns_name_length(b: Seq<u8>)
    ensures
        dns_name(b).len() == b.len() + 2,
        dns_name(b).last() == 0u8,
{
    lemma_labels_len(b, 0);
}

fn dot_from_exec(b: &[u8], p: usize) -> (k: usize)
    requires
        p <= b@.len(),
    ensures
        k as int == dot_from(b@, p as int),
        p <= k <= b@.len(),
    decreases b@.len() - p,
{
    if p >= b.len() {
        b.len()
    } else if b[p] == 0x2e {
        p
    } else {
        dot_from_exec(b, p + 1)
    }
}

/// DNS name encoding: each `.`-separated label as a length byte and its
/// bytes, then a zero byte.
pub fn encode_name(domain: &str) -> (out: Vec<u8>)
    ensures
        out@ == dns_name(domain.spec_bytes()),
{
    let b = domain.as_bytes();
    let mut out: Vec<u8> = Vec::new();
    let mut p: usize = 0;
    loop
        invariant
            p <= b@.len(),
            b@ == domain.spec_bytes(),
            out@ + labels_from(b@, p as int) == dns_name(b@),
        decreases b@.len() - p,
    {
        let k = dot_from_exec(b, p);
        let ghost before = out@;
        out.push(((k - p) % 256) as u8);
        let mut i = p;
        while i < k
            invariant
                p <= i <= k <= b@.len(),
                out@ == before + seq![((k - p) % 256) as u8] + b@.subrange(p as int, i as int),
            decreases k - i,
        {
            out.push(b[i]);
            i += 1;
            assert(out@ =~= before + seq![((k - p) % 256) as u8] + b@.subrange(p as int, i as int));
        }
        if k < b.len() {
            assert(before + labels_from(b@, p as int) =~= out@ + labels_from(b@, k + 1));
            p = k + 1;
        } else {
            out.push(0);
            assert(out@ =~= dns_name(b@));
            return out;
        }
    }
}

// ----------------------------------------------------------------------------
// Punycode (RFC 3492, base 36, tmin 1, tmax 26, skew 38, damp 700).
// ----------------------------------------------------------------------------

/// `a + b` capped at `u32::MAX`.
pub open spec fn sat(a: int, b: int) -> u32 {
    if a + b > u32::MAX {
        u32::MAX
    } else {
        (a + b) as u32
    }
}

/// Digit character for 0..35: `a`..`z`, then `0`..`9`.
pub open spec fn digit_char(d: int) -> char {
    if d < 26 {
        (97 + d) as char
    } else {
        (22 + d) as char
    }
}

/// Threshold for digit position `k`.
pub open spec fn tval(k: int, bias: int) -> int {
    if k <= bias {
        1
    } else if k >= bias + 26 {
        26
    } else {
        k - bias
    }
}

/// The next `k` (step 36; capped, never reached in practice).
pub open spec fn knext(k: int) -> int {
    if k <= u32::MAX - 36 {
        k + 36
    } else {
        u32::MAX as int
    }
}

/// Generalized variable-length integer digits of `q` from position `k`.
pub open spec fn var_digits(q: int, k: int, bias: int) -> Seq<char>
    decreases q,
{
    let t = tval(k, bias);
    if q < t || q < 0 {
        seq![digit_char(q)]
    } else {
        seq![digit_char(t + (q - t) % (36 - t))] + var_digits((q - t) / (36 - t), knext(k), bias)
    }
}

/// Bias adaptation loop: divide by 35 while above 455, counting k by 36.
pub open spec fn adapt_loop(d: int, k: int) -> (int, int)
    decreases d,
{
    if d > 455 {
        adapt_loop(d / 35, k + 36)
    } else {
        (d, k)
    }
}

/// Bias adaptation (RFC 3492 §6.1).
pub open spec fn adapt_spec(delta: u32, numpoints: u32, firsttime: bool) -> int {
    let d0: int = if firsttime { delta as int / 700 } else { delta as int / 2 };
    let np: int = if numpoints < 1 { 1 } else { numpoints as int };
    let d1 = d0 + d0 / np;
    let (d, k) = adapt_loop(d1, 0);
    k + 36 * d / (d + 38)
}

/// Code points of the input.
pub open spec fn cps(s: Seq<char>) -> Seq<u32> {
    s.map_values(|c: char| c as u32)
}

/// Smallest code point `>= n` among the first `i`, or 0x110000.
pub open spec fn min_upto(s: Seq<u32>, n: u32, i: int) -> u32
    decreases i,
{
    if i <= 0 || i > s.len() {
        0x110000
    } else {
        let r = min_upto(s, n, i - 1);
        if s[i - 1] >= n && s[i - 1] < r {
            s[i - 1]
        } else {
            r
        }
    }
}

/// Number of code points below `n`.
pub open spec fn count_lt(s: Seq<u32>, n: int) -> int
    decreases s.len(),
{
    if s.len() == 0 {
        0
    } else {
        count_lt(s.drop_last(), n) + if (s.last() as int) < n { 1int } else { 0int }
    }
}

/// Number of code points equal to `n` among the first `i`.
pub open spec fn count_eq(s: Seq<u32>, n: int, i: int) -> int
    decreases i,
{
    if i <= 0 || i > s.len() {
        0
    } else {
        count_eq(s, n, i - 1) + if s[i - 1] as int == n { 1int } else { 0int }
    }
}

/// State of the encoder: output so far, delta, bias, handled count.
pub struct PState {
    pub out: Seq<char>,
    pub delta: u32,
    pub bias: u32,
    pub h: u32,
}

/// The pass over the input for code point `n` from index `i`.
pub open spec fn pass(s: Seq<u32>, i: int, n: u32, b: u32, st: PState) -> PState
    decreases s.len() - i,
{
    if i < 0 || i >= s.len() {
        st
    } else {
        let cp = s[i];
        let d1 = if cp < n { sat(st.delta as int, 1) } else { st.delta };
        if cp == n {
            pass(s, i + 1, n, b, PState {
                out: st.out + var_digits(d1 as int, 36, st.bias as int),
                delta: 0,
                bias: adapt_spec(d1, sat(st.h as int, 1), st.h == b) as u32,
                h: sat(st.h as int, 1),
            })
        } else {
            pass(s, i + 1, n, b, PState { delta: d1, ..st })
        }
    }
}

/// The main loop of the encoder from code point `n` on.
pub open spec fn outer(s: Seq<u32>, n: u32, b: u32, st: PState) -> Seq<char>
    decreases 0x110001 - n,
{
    if st.h as int >= s.len() || n > 0x110000 {
        st.out
    } else {
        let m = min_upto(s, n, s.len() as int);
        if m < n || m > 0x110000 {
            st.out
        } else {
            let delta = sat(st.delta as int, if (m - n) * (st.h + 1) > u32::MAX { u32::MAX as int } else { (m - n) * (st.h + 1) });
            let after = pass(s, 0, m, b, PState { delta, ..st });
            outer(s, sat(m as int, 1), b, PState { delta: sat(after.delta as int, 1), ..after })
        }
    }
}

/// The basic (ASCII) code points, in order.
pub open spec fn basics(s: Seq<char>) -> Seq<char>
    decreases s.len(),
{
    if s.len() == 0 {
        Seq::empty()
    } else {
        basics(s.drop_last()) + if (s.last() as u32) < 0x80 { seq![s.last()] } else { Seq::empty() }
    }
}

/// Punycode encoding of a label: the basic characters, a `-` when there
/// are any, then the encoded deltas of the other code points.
pub open spec fn punycode_spec(s: Seq<char>) -> Seq<char> {
    let b = count_lt(cps(s), 0x80);
    let start = if b > 0 { basics(s) + seq!['-'] } else { basics(s) };
    outer(cps(s), 0x80, b as u32, PState { out: start, delta: 0, bias: 72, h: b as u32 })
}

proof fn lemma_count_lt_bounds(s: Seq<u32>, n: int)
    ensures
        0 <= count_lt(s, n) <= s.len(),
    decreases s.len(),
{
    if s.len() > 0 {
        lemma_count_lt_bounds(s.drop_last(), n);
    }
}

/// When every code point is below `n`, all are counted.
proof fn lemma_count_all(s: Seq<u32>, n: int)
    requires
        forall|j: int| 0 <= j < s.len() ==> (s[j] as int) < n,
    ensures
        count_lt(s, n) == s.len(),
    decreases s.len(),
{
    if s.len() > 0 {
        lemma_count_all(s.drop_last(), n);
    }
}

/// Counting below `n + 1` is counting below `n` plus counting `n`.
proof fn lemma_count_step(s: Seq<u32>, n: int)
    ensures
        count_lt(s, n + 1) == count_lt(s, n) + count_eq(s, n, s.len() as int),
    decreases s.len(),
{
    if s.len() > 0 {
        lemma_count_step(s.drop_last(), n);
        lemma_count_eq_same(s, s.drop_last(), n, s.len() - 1);
    }
}

proof fn lemma_count_eq_same(s: Seq<u32>, t: Seq<u32>, n: int, i: int)
    requires
        0 <= i <= s.len(),
        i <= t.len(),
        forall|j: int| 0 <= j < i ==> s[j] == t[j],
    ensures
        count_eq(s, n, i) == count_eq(t, n, i),
    decreases i,
{
    if i > 0 {
        lemma_count_eq_same(s, t, n, i - 1);
    }
}

/// The minimum search yields 0x110000 or a code point `>= n`, and when some
/// code point `>= n` exists among the first `i`, a value no larger than it.
proof fn lemma_min_upto(s: Seq<u32>, n: u32, i: int)
    requires
        0 <= i <= s.len(),
    ensures
        min_upto(s, n, i) == 0x110000 || (exists|j: int| 0 <= j < i && s[j] == min_upto(s, n, i) && s[j] >= n),
        forall|j: int| 0 <= j < i && s[j] >= n ==> min_upto(s, n, i) <= s[j],
    decreases i,
{
    if i > 0 {
        lemma_min_upto(s, n, i - 1);
        let r = min_upto(s, n, i - 1);
        if s[i - 1] >= n && s[i - 1] < r {
            assert(s[i - 1] == min_upto(s, n, i));
        } else if r != 0x110000 {
            let j = choose|j: int| 0 <= j < i - 1 && s[j] == r && s[j] >= n;
            assert(0 <= j < i && s[j] == min_upto(s, n, i) && s[j] >= n);
        }
    }
}

// ---------------------------- executable ----------------------------------

/// RFC 3492 digit character.
pub fn digit_char_exec(d: u32) -> (c: char)
    requires
        d < 36,
    ensures
        c == digit_char(d as int),
{
    if d < 26 {
        (97 + d) as u8 as char
    } else {
        (22 + d) as u8 as char
    }
}

fn adapt_loop_exec(d: u32, k: u32) -> (r: (u32, u32))
    requires
        k as int + 36 * 7 <= u32::MAX,
        d <= u32::MAX,
        k % 36 == 0,
        k <= 36 * (7 - log35(d as int)),
    ensures
        (r.0 as int, r.1 as int) == adapt_loop(d as int, k as int),
        r.0 <= 455,
        r.1 <= 36 * 7,
    decreases d,
{
    if d > 455 {
        proof {
            lemma_log35(d as int);
        }
        adapt_loop_exec(d / 35, k + 36)
    } else {
        (d, k)
    }
}

/// How many times dividing by 35 keeps the value above 455 (at most 6 for u32).
pub open spec fn log35(d: int) -> int
    decreases d,
{
    if d > 455 {
        1 + log35(d / 35)
    } else {
        0
    }
}

proof fn lemma_log35(d: int)
    requires
        0 <= d <= u32::MAX,
    ensures
        0 <= log35(d) <= 7,
        d > 455 ==> log35(d / 35) == log35(d) - 1,
    decreases d,
{
    if d > 455 {
        lemma_log35(d / 35);
        if d / 35 > 455 {
            assert(d / 35 / 35 <= d / 1225);
        }
        lemma_log35_bound(d);
    }
}

proof fn lemma_log35_bound(d: int)
    requires
        0 <= d <= u32::MAX,
    ensures
        log35(d) <= 7,
{
    assert(log35(d) <= 7) by {
        let d1 = d / 35;
        let d2 = d1 / 35;
        let d3 = d2 / 35;
        let d4 = d3 / 35;
        let d5 = d4 / 35;
        let d6 = d5 / 35;
        assert(d6 <= 455);
        reveal_with_fuel(log35, 8);
    }
}

/// Bias adaptation (RFC 3492 §6.1).
pub fn adapt(delta: u32, numpoints: u32, firsttime: bool) -> (r: u32)
    ensures
        r as int == adapt_spec(delta, numpoints, firsttime),
{
    let d0 = if firsttime { delta / 700 } else { delta / 2 };
    let np = if numpoints < 1 { 1 } else { numpoints };
    let d1 = d0 + d0 / np;
    proof {
        lemma_log35(d1 as int);
    }
    let (d, k) = adapt_loop_exec(d1, 0);
    k + 36 * d / (d + 38)
}

fn push_var_digits(out: &mut Vec<char>, q0: u32, bias: u32)
    ensures
        final(out)@ == old(out)@ + var_digits(q0 as int, 36, bias as int),
{
    let ghost o = old(out)@;
    let mut q = q0;
    let mut k: u32 = 36;
    loop
        invariant
            o == old(out)@,
            out@ + var_digits(q as int, k as int, bias as int) == o + var_digits(q0 as int, 36, bias as int),
        decreases q,
    {
        let t: u32 = if k <= bias { 1 } else if k >= bias as u64 as u32 && (k as u64) >= bias as u64 + 26 { 26 } else { k - bias };
        assert(t as int == tval(k as int, bias as int));
        if q < t {
            assert(var_digits(q as int, k as int, bias as int) == seq![digit_char(q as int)]);
            out.push(digit_char_exec(q));
            assert(out@ =~= o + var_digits(q0 as int, 36, bias as int));
            return;
        }
        let ghost before = out@;
        out.push(digit_char_exec(t + (q - t) % (36 - t)));
        let nq = (q - t) / (36 - t);
        assert(nq < q);
        let nk = if k <= u32::MAX - 36 { k + 36 } else { u32::MAX };
        assert(out@ + var_digits(nq as int, nk as int, bias as int) =~= before + var_digits(q as int, k as int, bias as int));
        q = nq;
        k = nk;
    }
}

/// No code point in `[a, b)`: counting below either bound gives the same.
proof fn lemma_count_gap(s: Seq<u32>, a: int, b: int)
    requires
        a <= b,
        forall|j: int| 0 <= j < s.len() ==> !(a <= #[trigger] s[j] < b),
    ensures
        count_lt(s, a) == count_lt(s, b),
    decreases s.len(),
{
    if s.len() > 0 {
        lemma_count_gap(s.drop_last(), a, b);
    }
}

/// One pass over the input for code point `m`.
fn run_pass(s: &Vec<u32>, m: u32, b: u32, out: &mut Vec<char>, delta: u32, bias: u32, h: u32) -> (r: (u32, u32, u32))
    requires
        s@.len() < u32::MAX,
        h as int + count_eq(s@, m as int, s@.len() as int) <= s@.len(),
    ensures
        pass(s@, 0, m, b, PState { out: old(out)@, delta, bias, h }) == (PState { out: final(out)@, delta: r.0, bias: r.1, h: r.2 }),
        r.2 as int == h + count_eq(s@, m as int, s@.len() as int),
{
    let ghost start = PState { out: old(out)@, delta, bias, h };
    let mut i: usize = 0;
    let mut d = delta;
    let mut bi = bias;
    let mut hh = h;
    proof {
        lemma_count_eq_bounds(s@, m as int, s@.len() as int);
    }
    while i < s.len()
        invariant
            i <= s@.len(),
            s@.len() < u32::MAX,
            hh as int == h + count_eq(s@, m as int, i as int),
            h as int + count_eq(s@, m as int, s@.len() as int) <= s@.len(),
            start == (PState { out: old(out)@, delta, bias, h }),
            pass(s@, i as int, m, b, PState { out: out@, delta: d, bias: bi, h: hh }) == pass(s@, 0, m, b, start),
        decreases s@.len() - i,
    {
        let cp = s[i];
        let d1 = if cp < m { if d == u32::MAX { u32::MAX } else { d + 1 } } else { d };
        if cp == m {
            proof {
                lemma_count_eq_mono(s@, m as int, i + 1, s@.len() as int);
            }
            push_var_digits(out, d1, bi);
            bi = adapt(d1, hh + 1, hh == b);
            d = 0;
            hh = hh + 1;
        } else {
            d = d1;
        }
        i += 1;
    }
    (d, bi, hh)
}

proof fn lemma_count_eq_bounds(s: Seq<u32>, n: int, i: int)
    requires
        0 <= i <= s.len(),
    ensures
        0 <= count_eq(s, n, i) <= i,
    decreases i,
{
    if i > 0 {
        lemma_count_eq_bounds(s, n, i - 1);
    }
}

proof fn lemma_count_eq_mono(s: Seq<u32>, n: int, i: int, j: int)
    requires
        0 <= i <= j <= s.len(),
    ensures
        count_eq(s, n, i) <= count_eq(s, n, j),
    decreases j - i,
{
    if i < j {
        lemma_count_eq_mono(s, n, i, j - 1);
    }
}

/// Punycode encoding of a label (RFC 3492).
pub fn punycode(input: &str) -> (r: String)
    requires
        input@.len() < u32::MAX,
    ensures
        r@ == punycode_spec(input@),
{
    let chars = str_chars(input);
    let ghost sc = chars@;
    let mut cp: Vec<u32> = Vec::new();
    let mut out: Vec<char> = Vec::new();
    let mut b: u32 = 0;
    let mut i: usize = 0;
    while i < chars.len()
        invariant
            i <= chars@.len(),
            chars@ == sc,
            sc.len() < u32::MAX,
            cp@ == cps(sc.subrange(0, i as int)),
            out@ == basics(sc.subrange(0, i as int)),
            b as int == count_lt(cps(sc.subrange(0, i as int)), 0x80),
            b <= i,
        decreases chars@.len() - i,
    {
        let c = chars[i];
        proof {
            assert(sc.subrange(0, i + 1).drop_last() =~= sc.subrange(0, i as int));
            assert(cps(sc.subrange(0, i + 1)).drop_last() =~= cps(sc.subrange(0, i as int)));
        }
        cp.push(c as u32);
        if (c as u32) < 0x80 {
            out.push(c);
            b += 1;
        }
        i += 1;
        assert(cp@ =~= cps(sc.subrange(0, i as int)));
    }
    proof {
        assert(sc.subrange(0, sc.len() as int) =~= sc);
    }
    if b > 0 {
        out.push('-');
    }
    assert(out@ =~= basics(sc) + (if b > 0 { seq!['-'] } else { Seq::<char>::empty() }));
    let len = cp.len() as u32;
    let mut h = b;
    let mut n: u32 = 0x80;
    let mut delta: u32 = 0;
    let mut bias: u32 = 72;
    let ghost s = cp@;
    let ghost st0 = PState { out: out@, delta: 0, bias: 72, h: b };
    proof {
        lemma_count_lt_bounds(s, 0x80);
    }
    while h < len
        invariant
            s == cp@,
            s == cps(sc),
            len as int == s.len(),
            s.len() < u32::MAX,
            0x80 <= n <= 0x110000,
            h as int == count_lt(s, n as int),
            b as int == count_lt(s, 0x80),
            st0 == (PState { out: basics(sc) + (if b > 0 { seq!['-'] } else { Seq::empty() }), delta: 0, bias: 72, h: b }),
            outer(s, n, b, PState { out: out@, delta, bias, h }) == outer(s, 0x80, b, st0),
        decreases 0x110001 - n,
    {
        // Some code point is >= n, since fewer than all are below n.
        proof {
            if forall|j: int| 0 <= j < s.len() ==> (s[j] as int) < n {
                lemma_count_all(s, n as int);
            }
        }
        let ghost w = choose|j: int| 0 <= j < s.len() && !((s[j] as int) < n);
        let mut m: u32 = 0x110000;
        let mut j: usize = 0;
        while j < cp.len()
            invariant
                j <= cp@.len(),
                s == cp@,
                m == min_upto(s, n, j as int),
            decreases cp@.len() - j,
        {
            if cp[j] >= n && cp[j] < m {
                m = cp[j];
            }
            j += 1;
        }
        proof {
            lemma_min_upto(s, n, s.len() as int);
            vstd::utf8::char_is_scalar(sc[w]);
            assert(s[w] == sc[w] as u32);
            assert(s[w] <= 0x10FFFF);
            assert(m <= s[w]);
            assert(forall|k: int| 0 <= k < s.len() ==> !(n <= #[trigger] s[k] < m));
            lemma_count_gap(s, n as int, m as int);
            lemma_count_step(s, m as int);
            lemma_count_lt_bounds(s, m as int + 1);
        }
        assert(m >= n);
        let ghost cur = PState { out: out@, delta, bias, h };
        let x: u64 = (m - n) as u64;
        let y: u64 = h as u64 + 1;
        assert(x * y <= u64::MAX) by (nonlinear_arith)
            requires x <= 0xFFFF_FFFFu64, y <= 0x1_0000_0000u64;
        let prod: u64 = x * y;
        let p: u32 = if prod > u32::MAX as u64 { u32::MAX } else { prod as u32 };
        delta = if delta as u64 + p as u64 > u32::MAX as u64 { u32::MAX } else { delta + p };
        let (d2, b2, h2) = run_pass(&cp, m, b, &mut out, delta, bias, h);
        delta = if d2 == u32::MAX { u32::MAX } else { d2 + 1 };
        bias = b2;
        h = h2;
        n = m + 1;
    }
    string_from_chars(out.as_slice())
}

/// Domain text for DNS: the name lower-cased (Unicode lower case); each
/// label that is not all ASCII then becomes `xn--` and its Punycode.
pub open spec fn idn_spec(d: Seq<char>) -> Seq<char> {
    idn_from(unicode_lower(d), 0)
}

/// First index at or after `p` holding a `.`, or the length.
pub open spec fn dot_char_from(t: Seq<char>, p: int) -> int
    decreases t.len() - p,
{
    if p < 0 || p >= t.len() {
        t.len() as int
    } else if t[p] == '.' {
        p
    } else {
        dot_char_from(t, p + 1)
    }
}

pub open spec fn all_ascii(l: Seq<char>) -> bool {
    forall|i: int| 0 <= i < l.len() ==> (l[i] as u32) < 0x80
}

pub open spec fn idn_label(l: Seq<char>) -> Seq<char> {
    if all_ascii(l) {
        l
    } else {
        "xn--"@ + punycode_spec(l)
    }
}

/// The converted labels from `p` on, joined by `.`.
pub open spec fn idn_from(t: Seq<char>, p: int) -> Seq<char>
    decreases t.len() - p + 1,
{
    let k = dot_char_from(t, p);
    if p < 0 || k < p || k > t.len() {
        Seq::empty()
    } else if k < t.len() {
        idn_label(t.subrange(p, k)) + seq!['.'] + idn_from(t, k + 1)
    } else {
        idn_label(t.subrange(p, k))
    }
}

fn dot_char_exec(t: &[char], p: usize) -> (k: usize)
    requires
        p <= t@.len(),
    ensures
        k as int == dot_char_from(t@, p as int),
        p <= k <= t@.len(),
    decreases t@.len() - p,
{
    if p >= t.len() {
        t.len()
    } else if t[p] == '.' {
        p
    } else {
        dot_char_exec(t, p + 1)
    }
}

fn push_all(out: &mut Vec<char>, v: &[char])
    ensures
        final(out)@ == old(out)@ + v@,
{
    let ghost o = old(out)@;
    let mut i: usize = 0;
    while i < v.len()
        invariant
            i <= v@.len(),
            out@ == o + v@.subrange(0, i as int),
        decreases v@.len() - i,
    {
        out.push(v[i]);
        i += 1;
        assert(out@ =~= o + v@.subrange(0, i as int));
    }
    assert(v@.subrange(0, v@.len() as int) =~= v@);
}

fn idn_label_exec(out: &mut Vec<char>, l: &[char])
    requires
        l@.len() < u32::MAX,
    ensures
        final(out)@ == old(out)@ + idn_label(l@),
{
    let mut ascii = true;
    let mut i: usize = 0;
    while i < l.len()
        invariant
            i <= l@.len(),
            ascii == (forall|j: int| 0 <= j < i ==> (l@[j] as u32) < 0x80),
        decreases l@.len() - i,
    {
        if (l[i] as u32) >= 0x80 {
            ascii = false;
        }
        i += 1;
    }
    if ascii {
        push_all(out, l);
    } else {
        let prefix = str_chars("xn--");
        push_all(out, prefix.as_slice());
        let label = string_from_chars(l);
        let enc = punycode(label.as_str());
        let ec = str_chars(enc.as_str());
        push_all(out, ec.as_slice());
        assert(final(out)@ =~= old(out)@ + idn_label(l@));
    }
}

/// The IDN conversion of a name already lower-cased.
fn idn_of_lowered(t: &[char]) -> (r: String)
    requires
        t@.len() < u32::MAX,
    ensures
        r@ == idn_from(t@, 0),
{
    let ghost tl = t@;
    let mut out: Vec<char> = Vec::new();
    let mut p: usize = 0;
    loop
        invariant
            p <= t@.len(),
            t@ == tl,
            tl.len() < u32::MAX,
            out@ + idn_from(tl, p as int) == idn_from(tl, 0),
        decreases t@.len() - p,
    {
        let k = dot_char_exec(t, p);
        let label = crate::text::slice_vec(t, p, k);
        let ghost before = out@;
        idn_label_exec(&mut out, label.as_slice());
        if k < t.len() {
            out.push('.');
            assert(out@ + idn_from(tl, k + 1) =~= before + idn_from(tl, p as int));
            p = k + 1;
        } else {
            assert(out@ =~= idn_from(tl, 0));
            return string_from_chars(out.as_slice());
        }
    }
}

/// IDN to ASCII for DNS names: the name is lower-cased (Unicode lower case,
/// so `MÜLLER` and `müller` agree); each label that is not all ASCII then
/// becomes `xn--` followed by its Punycode. The lower-cased name must be
/// shorter than `u32::MAX` characters (the Punycode counters are 32-bit).
pub fn idn_ascii(domain: &str) -> (r: String)
    requires
        unicode_lower(domain@).len() < u32::MAX,
    ensures
        r@ == idn_spec(domain@),
{
    let t = unicode_lowercase(domain);
    idn_of_lowered(t.as_slice())
}

/// The IDN conversion of a name, or `None` where its lower-cased form is
/// too long for the 32-bit Punycode counters.
pub fn idn_ascii_checked(domain: &str) -> (r: Option<String>)
    ensures
        match r {
            Some(s) => unicode_lower(domain@).len() < u32::MAX && s@ == idn_spec(domain@),
            None => unicode_lower(domain@).len() >= u32::MAX,
        },
{
    let t = unicode_lowercase(domain);
    if t.len() >= 0xffff_ffff {
        None
    } else {
        Some(idn_ascii(domain))
    }
}

// ----------------------------------------------------------------------------
// Decoded mDNS answers and how their addresses are reported.
// ----------------------------------------------------------------------------

/// The shared mDNS listener; the engines that consume mDNS register with it.
pub struct MdnsBroker;

/// The data of one resource record.
#[derive(Debug)]
pub enum MdnsData {
    A(IpAddr),
    AAAA(IpAddr),
    Ptr(String),
    Txt(Vec<String>),
    Other,
}

/// A record's data as plain values.
pub enum MdnsDataView {
    A(IpAddr),
    AAAA(IpAddr),
    Ptr(Seq<char>),
    Txt(Seq<Seq<char>>),
    Other,
}

pub open spec fn string_views(v: Seq<String>) -> Seq<Seq<char>> {
    v.map_values(|s: String| s@)
}

impl View for MdnsData {
    type V = MdnsDataView;

    open spec fn view(&self) -> MdnsDataView {
        match self {
            MdnsData::A(ip) => MdnsDataView::A(*ip),
            MdnsData::AAAA(ip) => MdnsDataView::AAAA(*ip),
            MdnsData::Ptr(n) => MdnsDataView::Ptr(n@),
            MdnsData::Txt(t) => MdnsDataView::Txt(string_views(t@)),
            MdnsData::Other => MdnsDataView::Other,
        }
    }
}

/// One answer of an mDNS response.
#[derive(Debug)]
pub struct MdnsAnswer {
    pub rrtype: u16,
    pub name: String,
    pub data: MdnsData,
}

/// The data of each answer, in order.
pub open spec fn answer_data(a: Seq<MdnsAnswer>) -> Seq<MdnsDataView> {
    a.map_values(|x: MdnsAnswer| x.data@)
}

/// The addresses that are not link-local, in order.
pub open spec fn routable_addrs(a: Seq<IpAddr>) -> Seq<IpAddr>
    decreases a.len(),
{
    if a.len() == 0 {
        Seq::empty()
    } else {
        routable_addrs(a.drop_last()) + if !autoconf_ip(a.last()) {
            seq![a.last()]
        } else {
            Seq::empty()
        }
    }
}

/// Whether a link-local address is reported under the configuration:
/// IPv4 ones with `force_zeroconf`, IPv6 ones with `force_link_local`.
pub open spec fn link_local_wanted(ip: IpAddr, cfg: Config) -> bool {
    autoconf_ip(ip) && match ip {
        IpAddr::V4(..) => cfg.force_zeroconf,
        IpAddr::V6(..) => cfg.force_link_local,
    }
}

/// The link-local addresses the configuration lets through, in order.
pub open spec fn wanted_link_local(a: Seq<IpAddr>, cfg: Config) -> Seq<IpAddr>
    decreases a.len(),
{
    if a.len() == 0 {
        Seq::empty()
    } else {
        wanted_link_local(a.drop_last(), cfg) + if link_local_wanted(a.last(), cfg) {
            seq![a.last()]
        } else {
            Seq::empty()
        }
    }
}

/// The addresses reported for one mDNS device: first every routable one,
/// then the link-local ones the configuration asks for.
pub open spec fn reported_addrs(a: Seq<IpAddr>, cfg: Config) -> Seq<IpAddr> {
    routable_addrs(a) + wanted_link_local(a, cfg)
}

/// One device per address, all with the same protocol, version, model and serial.
pub open spec fn devices_at(protocol: Seq<char>, version: u32, ips: Seq<IpAddr>, model: Seq<char>, serial: Seq<char>) -> Seq<DeviceView> {
    ips.map_values(|ip: IpAddr| DeviceView { protocol, version, ip, mac: Seq::empty(), device_type: model, serial })
}

spec fn picked(a: Seq<IpAddr>, cfg: Config, link_local: bool) -> Seq<IpAddr> {
    if link_local {
        wanted_link_local(a, cfg)
    } else {
        routable_addrs(a)
    }
}

fn push_address_devices(out: &mut Vec<Device>, protocol: &str, version: u32, addresses: &[IpAddr], model: &str, serial: &str, cfg: &Config, link_local: bool)
    ensures
        views(final(out)@) == views(old(out)@) + devices_at(protocol@, version, picked(addresses@, *cfg, link_local), model@, serial@),
{
    let ghost start = views(out@);
    let mut i: usize = 0;
    while i < addresses.len()
        invariant
            i <= addresses@.len(),
            views(out@) == start + devices_at(protocol@, version, picked(addresses@.subrange(0, i as int), *cfg, link_local), model@, serial@),
        decreases addresses@.len() - i,
    {
        let ip = addresses[i];
        proof {
            assert(addresses@.subrange(0, i + 1).drop_last() =~= addresses@.subrange(0, i as int));
        }
        let auto = is_autoconf(ip);
        let take = if link_local {
            auto && match ip {
                IpAddr::V4(..) => cfg.force_zeroconf,
                IpAddr::V6(..) => cfg.force_link_local,
            }
        } else {
            !auto
        };
        let ghost before = out@;
        if take {
            let d = Device::new(crate::text::owned(protocol), version, ip, String::new(), crate::text::owned(model), crate::text::owned(serial));
            out.push(d);
            proof {
                assert(views(out@) =~= views(before).push(d@));
            }
        }
        i += 1;
        proof {
            let full = addresses@.subrange(0, i as int);
            assert(full.drop_last() =~= addresses@.subrange(0, i - 1));
            assert(full.last() == ip);
            let prev = picked(addresses@.subrange(0, i - 1), *cfg, link_local);
            let next = picked(full, *cfg, link_local);
            if link_local {
                assert(next == wanted_link_local(full.drop_last(), *cfg) + if link_local_wanted(ip, *cfg) {
                    seq![ip]
                } else {
                    Seq::empty()
                });
            } else {
                assert(next == routable_addrs(full.drop_last()) + if !autoconf_ip(ip) {
                    seq![ip]
                } else {
                    Seq::empty()
                });
            }
            if take {
                assert(next =~= prev.push(ip));
            } else {
                assert(next =~= prev);
            }
            assert(devices_at(protocol@, version, next, model@, serial@) =~= if take {
                devices_at(protocol@, version, prev, model@, serial@).push(views(out@).last())
            } else {
                devices_at(protocol@, version, prev, model@, serial@)
            });
        }
    }
    assert(addresses@.subrange(0, addresses@.len() as int) =~= addresses@);
}

/// The devices one mDNS reply yields: one per reported address (see
/// `reported_addrs`), routable addresses first, with no MAC column.
pub fn report_addresses(protocol: &str, version: u32, addresses: &[IpAddr], model: &str, serial: &str, cfg: &Config) -> (devs: Vec<Device>)
    ensures
        views(devs@) == devices_at(protocol@, version, reported_addrs(addresses@, *cfg), model@, serial@),
{
    let mut out: Vec<Device> = Vec::new();
    push_address_devices(&mut out, protocol, version, addresses, model, serial, cfg, false);
    push_address_devices(&mut out, protocol, version, addresses, model, serial, cfg, true);
    proof {
        let r = routable_addrs(addresses@);
        let w = wanted_link_local(addresses@, *cfg);
        assert(views(Seq::<Device>::empty()) =~= Seq::<DeviceView>::empty());
        assert(devices_at(protocol@, version, r + w, model@, serial@) =~= devices_at(protocol@, version, r, model@, serial@)
            + devices_at(protocol@, version, w, model@, serial@));
    }
    out
}

proof fn lemma_ascii_counts(s: Seq<char>)
    requires
        all_ascii(s),
    ensures
        count_lt(cps(s), 0x80) == s.len(),
        basics(s) == s,
    decreases s.len(),
{
    if s.len() > 0 {
        let t = s.drop_last();
        assert forall|i: int| 0 <= i < t.len() implies (t[i] as u32) < 0x80 by {
            assert(t[i] == s[i]);
        }
        lemma_ascii_counts(t);
        assert(cps(s).drop_last() =~= cps(t));
        assert(cps(s).last() == s.last() as u32);
        assert((s.last() as u32) < 0x80);
        assert(t.push(s.last()) =~= s);
    }
}

/// A label of ASCII characters only encodes to itself followed by `-`
/// (the basic characters, the delimiter, and no deltas).
pub proof fn law_ascii_punycode(s: Seq<char>)
    requires
        all_ascii(s),
        0 < s.len() < 0x1_0000_0000,
    ensures
        punycode_spec(s) == s + seq!['-'],
{
    lemma_ascii_counts(s);
}

proof fn lemma_dot_char_from(t: Seq<char>, p: int)
    requires
        0 <= p <= t.len(),
    ensures
        p <= dot_char_from(t, p) <= t.len(),
        dot_char_from(t, p) < t.len() ==> t[dot_char_from(t, p)] == '.',
    decreases t.len() - p,
{
    if p < t.len() && t[p] != '.' {
        lemma_dot_char_from(t, p + 1);
    }
}

proof fn lemma_idn_from_ascii(t: Seq<char>, p: int)
    requires
        0 <= p <= t.len(),
        all_ascii(t),
    ensures
        idn_from(t, p) == t.subrange(p, t.len() as int),
    decreases t.len() - p + 1,
{
    lemma_dot_char_from(t, p);
    let k = dot_char_from(t, p);
    let l = t.subrange(p, k);
    assert forall|i: int| 0 <= i < l.len() implies (l[i] as u32) < 0x80 by {
        assert(l[i] == t[p + i]);
    }
    assert(idn_label(l) == l);
    if k < t.len() {
        lemma_idn_from_ascii(t, k + 1);
        assert(l + seq!['.'] + t.subrange(k + 1, t.len() as int) =~= t.subrange(p, t.len() as int));
    }
}

/// A name whose lower-cased form is all ASCII comes out of the IDN
/// conversion as that lower-cased form.
pub proof fn law_ascii_domain_lowercased(d: Seq<char>)
    requires
        all_ascii(unicode_lower(d)),
    ensures
        idn_spec(d) == unicode_lower(d),
{
    let t = unicode_lower(d);
    lemma_idn_from_ascii(t, 0);
    assert(t.subrange(0, t.len() as int) =~= t);
}

/// A Punycode digit: `a`..`z` or `0`..`9`.
pub open spec fn is_digit_char(c: char) -> bool {
    ('a' <= c && c <= 'z') || ('0' <= c && c <= '9')
}

/// `t` extends `before` by Punycode digits only.
pub open spec fn extends_by_digits(before: Seq<char>, t: Seq<char>) -> bool {
    &&& t.len() >= before.len()
    &&& t.subrange(0, before.len() as int) == before
    &&& forall|j: int| before.len() <= j < t.len() ==> is_digit_char(#[trigger] t[j])
}

proof fn lemma_var_digits(q: int, k: int, bias: int)
    requires
        q >= 0,
    ensures
        forall|j: int| 0 <= j < var_digits(q, k, bias).len() ==> is_digit_char(#[trigger] var_digits(q, k, bias)[j]),
    decreases q,
{
    let t = tval(k, bias);
    assert(1 <= t <= 26);
    if q < t {
        assert(var_digits(q, k, bias) == seq![digit_char(q)]);
    } else {
        let d = t + (q - t) % (36 - t);
        assert(t <= d < 36);
        let q2 = (q - t) / (36 - t);
        assert(0 <= q2 < q) by (nonlinear_arith)
            requires q >= t, 1 <= t <= 26, q2 == (q - t) / (36 - t);
        lemma_var_digits(q2, knext(k), bias);
        let v = var_digits(q, k, bias);
        let r = var_digits(q2, knext(k), bias);
        assert(v == seq![digit_char(d)] + r);
        assert forall|j: int| 0 <= j < v.len() implies is_digit_char(#[trigger] v[j]) by {
            if j > 0 {
                assert(v[j] == r[j - 1]);
            }
        }
    }
}

proof fn lemma_extends_trans(a: Seq<char>, b: Seq<char>, c: Seq<char>)
    requires
        extends_by_digits(a, b),
        extends_by_digits(b, c),
    ensures
        extends_by_digits(a, c),
{
    assert forall|j: int| 0 <= j < b.len() implies c[j] == b[j] by {
        assert(c.subrange(0, b.len() as int)[j] == c[j]);
    }
    assert(c.subrange(0, a.len() as int) =~= b.subrange(0, a.len() as int));
    assert forall|j: int| a.len() <= j < c.len() implies is_digit_char(#[trigger] c[j]) by {
        if j < b.len() {
            assert(c[j] == b[j]);
        }
    }
}

proof fn lemma_pass_digits(s: Seq<u32>, i: int, n: u32, b: u32, st: PState)
    ensures
        extends_by_digits(st.out, pass(s, i, n, b, st).out),
    decreases s.len() - i,
{
    if i < 0 || i >= s.len() {
        assert(st.out.subrange(0, st.out.len() as int) =~= st.out);
    } else {
        let cp = s[i];
        let d1 = if cp < n { sat(st.delta as int, 1) } else { st.delta };
        if cp == n {
            let v = var_digits(d1 as int, 36, st.bias as int);
            let st2 = PState {
                out: st.out + v,
                delta: 0,
                bias: adapt_spec(d1, sat(st.h as int, 1), st.h == b) as u32,
                h: sat(st.h as int, 1),
            };
            lemma_var_digits(d1 as int, 36, st.bias as int);
            assert(extends_by_digits(st.out, st2.out)) by {
                assert(st2.out.subrange(0, st.out.len() as int) =~= st.out);
                assert forall|j: int| st.out.len() <= j < st2.out.len() implies is_digit_char(#[trigger] st2.out[j]) by {
                    assert(st2.out[j] == v[j - st.out.len()]);
                }
            }
            lemma_pass_digits(s, i + 1, n, b, st2);
            lemma_extends_trans(st.out, st2.out, pass(s, i + 1, n, b, st2).out);
        } else {
            lemma_pass_digits(s, i + 1, n, b, PState { delta: d1, ..st });
        }
    }
}

proof fn lemma_outer_digits(s: Seq<u32>, n: u32, b: u32, st: PState)
    ensures
        extends_by_digits(st.out, outer(s, n, b, st)),
    decreases 0x110001 - n,
{
    if st.h as int >= s.len() || n > 0x110000 {
        assert(st.out.subrange(0, st.out.len() as int) =~= st.out);
    } else {
        let m = min_upto(s, n, s.len() as int);
        if m < n || m > 0x110000 {
            assert(st.out.subrange(0, st.out.len() as int) =~= st.out);
        } else {
            let delta = sat(st.delta as int, if (m - n) * (st.h + 1) > u32::MAX { u32::MAX as int } else { (m - n) * (st.h + 1) });
            let after = pass(s, 0, m, b, PState { delta, ..st });
            lemma_pass_digits(s, 0, m, b, PState { delta, ..st });
            let st2 = PState { delta: sat(after.delta as int, 1), ..after };
            lemma_outer_digits(s, sat(m as int, 1), b, st2);
            lemma_extends_trans(st.out, st2.out, outer(s, sat(m as int, 1), b, st2));
        }
    }
}

proof fn lemma_pass_grows(s: Seq<u32>, i: int, n: u32, b: u32, st: PState, j: int)
    requires
        0 <= i <= j < s.len(),
        s[j] == n,
    ensures
        pass(s, i, n, b, st).out.len() > st.out.len(),
    decreases s.len() - i,
{
    let cp = s[i];
    let d1 = if cp < n { sat(st.delta as int, 1) } else { st.delta };
    if cp == n {
        let v = var_digits(d1 as int, 36, st.bias as int);
        assert(v.len() >= 1);
        let st2 = PState {
            out: st.out + v,
            delta: 0,
            bias: adapt_spec(d1, sat(st.h as int, 1), st.h == b) as u32,
            h: sat(st.h as int, 1),
        };
        lemma_pass_digits(s, i + 1, n, b, st2);
    } else {
        lemma_pass_grows(s, i + 1, n, b, PState { delta: d1, ..st }, j);
    }
}

proof fn lemma_count_lt_below(s: Seq<u32>, n: int, j: int)
    requires
        0 <= j < s.len(),
        s[j] as int >= n,
    ensures
        count_lt(s, n) < s.len(),
    decreases s.len(),
{
    lemma_count_lt_bounds(s.drop_last(), n);
    if j < s.len() - 1 {
        lemma_count_lt_below(s.drop_last(), n, j);
    }
}

/// A label with a character outside ASCII gets at least one Punycode digit
/// after its basic part.
proof fn lemma_punycode_nonbasic(s: Seq<char>, j: int)
    requires
        0 <= j < s.len(),
        (s[j] as u32) >= 0x80,
    ensures
        punycode_spec(s).len() > (if count_lt(cps(s), 0x80) > 0 { basics(s) + seq!['-'] } else { basics(s) }).len(),
{
    let c = cps(s);
    let b = count_lt(c, 0x80);
    assert(c[j] == (s[j] as u32));
    lemma_count_lt_below(c, 0x80, j);
    lemma_count_lt_bounds(c, 0x80);
    let start = if b > 0 { basics(s) + seq!['-'] } else { basics(s) };
    let st0 = PState { out: start, delta: 0, bias: 72, h: b as u32 };
    lemma_min_upto(c, 0x80, c.len() as int);
    let m = min_upto(c, 0x80, c.len() as int);
    assert(m <= c[j]);
    vstd::utf8::char_is_scalar(s[j]);
    assert((s[j] as u32) <= 0x10FFFF);
    let k = choose|k: int| 0 <= k < c.len() && c[k] == m && c[k] >= 0x80;
    let delta = sat(st0.delta as int, if (m - 0x80u32) * (st0.h + 1) > u32::MAX { u32::MAX as int } else { (m - 0x80u32) * (st0.h + 1) });
    let st1 = PState { delta, ..st0 };
    lemma_pass_grows(c, 0, m, b as u32, st1, k);
    let after = pass(c, 0, m, b as u32, st1);
    let st2 = PState { delta: sat(after.delta as int, 1), ..after };
    lemma_outer_digits(c, sat(m as int, 1), b as u32, st2);
}

proof fn lemma_basics(s: Seq<char>)
    ensures
        basics(s).len() == count_lt(cps(s), 0x80),
        all_ascii(basics(s)),
    decreases s.len(),
{
    if s.len() > 0 {
        lemma_basics(s.drop_last());
        assert(cps(s).drop_last() =~= cps(s.drop_last()));
        assert(cps(s).last() == s.last() as u32);
    }
}

/// The shape of a Punycode encoding: the basic (ASCII) characters of the
/// input in order, a `-` when there is any, then Punycode digits only
/// (`a`..`z`, `0`..`9`), at least one of them when the input has a
/// character outside ASCII; the whole result is ASCII.
pub proof fn law_punycode_shape(s: Seq<char>)
    ensures
        extends_by_digits(if basics(s).len() > 0 { basics(s) + seq!['-'] } else { basics(s) }, punycode_spec(s)),
        all_ascii(punycode_spec(s)),
        !all_ascii(s) ==> punycode_spec(s).len() > (if basics(s).len() > 0 { basics(s) + seq!['-'] } else { basics(s) }).len(),
{
    lemma_basics(s);
    if !all_ascii(s) {
        let j = choose|j: int| 0 <= j < s.len() && !((s[j] as u32) < 0x80);
        lemma_punycode_nonbasic(s, j);
    }
    let b = count_lt(cps(s), 0x80);
    lemma_count_lt_bounds(cps(s), 0x80);
    let start = if b > 0 { basics(s) + seq!['-'] } else { basics(s) };
    lemma_outer_digits(cps(s), 0x80, b as u32, PState { out: start, delta: 0, bias: 72, h: b as u32 });
    let p = punycode_spec(s);
    assert forall|i: int| 0 <= i < p.len() implies (p[i] as u32) < 0x80 by {
        if i < start.len() {
            assert(p[i] == p.subrange(0, start.len() as int)[i]);
            if i < basics(s).len() {
                assert(start[i] == basics(s)[i]);
            }
        } else {
            assert(is_digit_char(p[i]));
        }
    }
}

} // verus!
