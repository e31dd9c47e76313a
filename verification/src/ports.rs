//! Local UDP port allocation: random free ports in 1024..=65533, avoiding
//! the ports the system already uses and those reserved by the engines.

use vstd::prelude::*;
use std::collections::BTreeSet;
use crate::text::{is_ws, is_ws_exec, str_chars, slice_vec, newline_from, std_lines_from, lemma_newline_bounds};

verus! {

broadcast use vstd::std_specs::btree::group_btree_axioms, vstd::laws_cmp::group_laws_cmp;

pub const PORT_MIN: u16 = 1024;
pub const PORT_MAX: u16 = 65533;

// ----------------------------------------------------------------------------
// The random source (SplitMix64).
// ----------------------------------------------------------------------------

/// The state after one step.
pub open spec fn splitmix_next_state(s: u64) -> u64 {
    vstd::wrapping::u64_specs::wrapping_add(s, 0x9E37_79B9_7F4A_7C15)
}

/// The output of the step from state `s`.
pub open spec fn splitmix_output(s: u64) -> u64 {
    let z = splitmix_next_state(s);
    let z1 = vstd::wrapping::u64_specs::wrapping_mul(z ^ (z >> 30u64), 0xBF58_476D_1CE4_E5B9);
    let z2 = vstd::wrapping::u64_specs::wrapping_mul(z1 ^ (z1 >> 27u64), 0x94D0_49BB_1331_11EB);
    z2 ^ (z2 >> 31u64)
}

/// The port a draw from state `s` gives: in 1024..=65533.
pub open spec fn port_of_state(s: u64) -> u16 {
    (1024 + splitmix_output(s) % 64510) as u16
}

/// A small deterministic random source (SplitMix64).
#[derive(Debug)]
pub struct SplitMix64(pub u64);

impl SplitMix64 {
    pub fn new(seed: u64) -> (r: Self)
        ensures
            r.0 == seed,
    {
        SplitMix64(seed)
    }

    pub fn next_u64(&mut self) -> (r: u64)
        ensures
            final(self).0 == splitmix_next_state(old(self).0),
            r == splitmix_output(old(self).0),
    {
        self.0 = self.0.wrapping_add(0x9E37_79B9_7F4A_7C15);
        let mut z = self.0;
        z = (z ^ (z >> 30)).wrapping_mul(0xBF58_476D_1CE4_E5B9);
        z = (z ^ (z >> 27)).wrapping_mul(0x94D0_49BB_1331_11EB);
        z ^ (z >> 31)
    }

    /// A port in `PORT_MIN..=PORT_MAX`.
    pub fn pick(&mut self) -> (p: u16)
        ensures
            final(self).0 == splitmix_next_state(old(self).0),
            p == port_of_state(old(self).0),
            PORT_MIN <= p <= PORT_MAX,
    {
        let r = self.next_u64();
        PORT_MIN + (r % ((PORT_MAX - PORT_MIN + 1) as u64)) as u16
    }
}

// ----------------------------------------------------------------------------
// /proc/net/udp.
// ----------------------------------------------------------------------------

/// Index of the first whitespace at or after `p`, or the length.
pub open spec fn token_end(l: Seq<char>, p: int) -> int
    decreases l.len() - p,
{
    if p < 0 || p >= l.len() || is_ws(l[p]) {
        p
    } else {
        token_end(l, p + 1)
    }
}

/// Index of the first non-whitespace at or after `p`, or the length.
pub open spec fn token_start(l: Seq<char>, p: int) -> int
    decreases l.len() - p,
{
    if p < 0 || p >= l.len() || !is_ws(l[p]) {
        p
    } else {
        token_start(l, p + 1)
    }
}

/// The whitespace-separated fields from position `p` on (`split_whitespace`).
pub open spec fn fields_from(l: Seq<char>, p: int) -> Seq<Seq<char>>
    decreases l.len() - p,
{
    let a = token_start(l, p);
    if p < 0 || a < p || a >= l.len() {
        Seq::empty()
    } else {
        let b = token_end(l, a);
        if b <= a || b > l.len() {
            Seq::empty()
        } else {
            seq![l.subrange(a, b)] + fields_from(l, b)
        }
    }
}

/// The text after the last `:`, or all of it.
pub open spec fn after_last_colon(s: Seq<char>) -> Seq<char>
    decreases s.len(),
{
    if s.len() == 0 {
        s
    } else if s.last() == ':' {
        Seq::empty()
    } else {
        after_last_colon(s.drop_last()).push(s.last())
    }
}

pub open spec fn hex_value(c: char) -> int {
    if '0' <= c && c <= '9' {
        c as int - 48
    } else if 'a' <= c && c <= 'f' {
        c as int - 87
    } else if 'A' <= c && c <= 'F' {
        c as int - 55
    } else {
        -1
    }
}

/// The value of hex digits (all of which are digits).
pub open spec fn hex_digits_value(d: Seq<char>) -> int
    decreases d.len(),
{
    if d.len() == 0 {
        0
    } else {
        hex_digits_value(d.drop_last()) * 16 + hex_value(d.last())
    }
}

pub open spec fn all_hex(d: Seq<char>) -> bool {
    forall|i: int| 0 <= i < d.len() ==> hex_value(#[trigger] d[i]) >= 0
}

/// `u16::from_str_radix(s, 16)`: an optional `+`, then at least one hex
/// digit, the value fitting 16 bits.
pub open spec fn parse_hex_u16(s: Seq<char>) -> Option<u16> {
    let d = if s.len() > 0 && s[0] == '+' {
        s.subrange(1, s.len() as int)
    } else {
        s
    };
    if d.len() == 0 || !all_hex(d) || hex_digits_value(d) > 0xffff {
        None
    } else {
        Some(hex_digits_value(d) as u16)
    }
}

/// The local port of one socket-table line (its second field, after the
/// last `:`), when it parses and is not zero.
pub open spec fn line_port(l: Seq<char>) -> Option<u16> {
    let f = fields_from(l, 0);
    if f.len() < 2 {
        None
    } else {
        match parse_hex_u16(after_last_colon(f[1])) {
            Some(p) => if p != 0 {
                Some(p)
            } else {
                None
            },
            None => None,
        }
    }
}

/// The ports of the lines, in order, skipping lines without one.
pub open spec fn lines_ports(ls: Seq<Seq<char>>) -> Seq<u16>
    decreases ls.len(),
{
    if ls.len() == 0 {
        Seq::empty()
    } else {
        lines_ports(ls.drop_last()) + match line_port(ls.last()) {
            Some(p) => seq![p],
            None => Seq::empty(),
        }
    }
}

/// The ports listed by a `/proc/net/udp` text (its first line is the header).
pub open spec fn proc_udp_ports(t: Seq<char>) -> Seq<u16> {
    let ls = std_lines_from(t, 0);
    if ls.len() == 0 {
        Seq::empty()
    } else {
        lines_ports(ls.subrange(1, ls.len() as int))
    }
}

proof fn lemma_token_bounds(l: Seq<char>, p: int)
    requires
        0 <= p <= l.len(),
    ensures
        p <= token_start(l, p) <= l.len(),
        p <= token_end(l, p) <= l.len(),
    decreases l.len() - p,
{
    if p < l.len() {
        lemma_token_bounds(l, p + 1);
    }
}

fn skip_ws(l: &[char], p: usize) -> (r: usize)
    requires
        p <= l@.len(),
    ensures
        r as int == token_start(l@, p as int),
        p <= r <= l@.len(),
    decreases l@.len() - p,
{
    if p >= l.len() || !is_ws_exec(l[p]) {
        p
    } else {
        skip_ws(l, p + 1)
    }
}

fn skip_token(l: &[char], p: usize) -> (r: usize)
    requires
        p <= l@.len(),
    ensures
        r as int == token_end(l@, p as int),
        p <= r <= l@.len(),
    decreases l@.len() - p,
{
    if p >= l.len() || is_ws_exec(l[p]) {
        p
    } else {
        skip_token(l, p + 1)
    }
}

proof fn lemma_token_props(l: Seq<char>, p: int)
    requires
        0 <= p <= l.len(),
    ensures
        token_start(l, p) < l.len() ==> !is_ws(l[token_start(l, p)]),
        p < l.len() && !is_ws(l[p]) ==> token_end(l, p) > p,
    decreases l.len() - p,
{
    if p < l.len() {
        lemma_token_props(l, p + 1);
        lemma_token_bounds(l, p + 1);
    }
}

/// The second whitespace-separated field of a line, if any.
fn second_field(l: &[char]) -> (r: Option<Vec<char>>)
    ensures
        match r {
            Some(f) => fields_from(l@, 0).len() >= 2 && f@ == fields_from(l@, 0)[1],
            None => fields_from(l@, 0).len() < 2,
        },
{
    let n = l.len();
    let a = skip_ws(l, 0);
    proof {
        lemma_token_props(l@, 0);
    }
    if a >= n {
        assert(fields_from(l@, 0) =~= Seq::<Seq<char>>::empty());
        return None;
    }
    let b = skip_token(l, a);
    proof {
        lemma_token_props(l@, a as int);
        lemma_token_bounds(l@, b as int);
        lemma_token_props(l@, b as int);
        assert(fields_from(l@, 0) =~= seq![l@.subrange(a as int, b as int)] + fields_from(l@, b as int));
    }
    let c = skip_ws(l, b);
    if c >= n {
        assert(fields_from(l@, b as int) =~= Seq::<Seq<char>>::empty());
        return None;
    }
    let d = skip_token(l, c);
    proof {
        lemma_token_props(l@, c as int);
        assert(fields_from(l@, b as int) =~= seq![l@.subrange(c as int, d as int)] + fields_from(l@, d as int));
    }
    assert(fields_from(l@, 0)[1] == l@.subrange(c as int, d as int));
    Some(slice_vec(l, c, d))
}

fn after_last_colon_exec(s: &[char]) -> (r: Vec<char>)
    ensures
        r@ == after_last_colon(s@),
{
    let n = s.len();
    let mut i: usize = n;
    assert(s@.subrange(0, n as int) =~= s@);
    assert(s@.subrange(n as int, n as int) =~= Seq::<char>::empty());
    while i > 0 && s[i - 1] != ':'
        invariant
            i <= n,
            n == s@.len(),
            after_last_colon(s@) == after_last_colon(s@.subrange(0, i as int)) + s@.subrange(i as int, n as int),
        decreases i,
    {
        proof {
            let t = s@.subrange(0, i as int);
            assert(t.drop_last() =~= s@.subrange(0, i - 1));
            assert(s@.subrange(i - 1, n as int) =~= seq![t.last()] + s@.subrange(i as int, n as int));
            assert(after_last_colon(s@.subrange(0, i - 1)).push(t.last()) + s@.subrange(i as int, n as int)
                =~= after_last_colon(s@.subrange(0, i - 1)) + s@.subrange(i - 1, n as int));
        }
        i -= 1;
    }
    proof {
        if i == 0 {
            assert(s@.subrange(0, 0) =~= Seq::<char>::empty());
        }
    }
    assert(s@.subrange(0, n as int) =~= s@);
    slice_vec(s, i, n)
}

fn hex_value_exec(c: char) -> (v: i32)
    ensures
        v == hex_value(c),
{
    if '0' <= c && c <= '9' {
        (c as u32 - 48) as i32
    } else if 'a' <= c && c <= 'f' {
        (c as u32 - 87) as i32
    } else if 'A' <= c && c <= 'F' {
        (c as u32 - 55) as i32
    } else {
        -1
    }
}

fn parse_hex_u16_exec(s: &[char]) -> (r: Option<u16>)
    ensures
        r == parse_hex_u16(s@),
{
    let n = s.len();
    let start: usize = if n > 0 && s[0] == '+' { 1 } else { 0 };
    let ghost d = if s@.len() > 0 && s@[0] == '+' { s@.subrange(1, n as int) } else { s@ };
    assert(d =~= s@.subrange(start as int, n as int));
    if start >= n {
        return None;
    }
    let mut v: u32 = 0;
    let mut i = start;
    while i < n
        invariant
            start <= i <= n,
            n == s@.len(),
            d =~= s@.subrange(start as int, n as int),
            d == (if s@.len() > 0 && s@[0] == '+' { s@.subrange(1, n as int) } else { s@ }),
            start < n,
            all_hex(s@.subrange(start as int, i as int)),
            v == hex_digits_value(s@.subrange(start as int, i as int)),
            v <= 0xffff,
        decreases n - i,
    {
        let h = hex_value_exec(s[i]);
        let ghost q = s@.subrange(start as int, i + 1);
        proof {
            assert(q.drop_last() =~= s@.subrange(start as int, i as int));
            assert(q.last() == s@[i as int]);
            assert(q =~= d.subrange(0, q.len() as int));
        }
        if h < 0 {
            proof {
                if all_hex(d) {
                    assert(hex_value(d[i - start]) >= 0);
                    assert(d[i - start] == s@[i as int]);
                }
            }
            return None;
        }
        proof {
            assert(all_hex(q)) by {
                assert forall|j: int| 0 <= j < q.len() implies hex_value(#[trigger] q[j]) >= 0 by {
                    if j < q.len() - 1 {
                        assert(q[j] == s@.subrange(start as int, i as int)[j]);
                    }
                }
            }
        }
        let nv: u32 = v * 16 + h as u32;
        assert(nv == hex_digits_value(q));
        if nv > 0xffff {
            proof {
                lemma_hex_monotone(d, q);
            }
            return None;
        }
        v = nv;
        i += 1;
    }
    proof {
        assert(s@.subrange(start as int, n as int) =~= d);
    }
    Some(v as u16)
}

/// Extending hex digits never lowers the value.
proof fn lemma_hex_monotone(d: Seq<char>, p: Seq<char>)
    requires
        p.len() <= d.len(),
        p =~= d.subrange(0, p.len() as int),
        all_hex(p),
        all_hex(d) || true,
    ensures
        all_hex(d) ==> hex_digits_value(p) <= hex_digits_value(d),
    decreases d.len() - p.len(),
{
    if p.len() == d.len() {
        assert(d.subrange(0, d.len() as int) =~= d);
    }
    if p.len() < d.len() && all_hex(d) {
        let q = d.subrange(0, p.len() as int + 1);
        assert(q.drop_last() =~= p);
        assert(hex_value(q.last()) >= 0) by {
            assert(q.last() == d[p.len() as int]);
        }
        assert(all_hex(q)) by {
            assert forall|j: int| 0 <= j < q.len() implies hex_value(#[trigger] q[j]) >= 0 by {
                assert(q[j] == d[j]);
            }
        }
        lemma_hex_nonneg(p);
        lemma_hex_monotone(d, q);
    }
}

proof fn lemma_hex_nonneg(p: Seq<char>)
    requires
        all_hex(p),
    ensures
        hex_digits_value(p) >= 0,
    decreases p.len(),
{
    if p.len() > 0 {
        assert(all_hex(p.drop_last())) by {
            assert forall|j: int| 0 <= j < p.drop_last().len() implies hex_value(#[trigger] p.drop_last()[j]) >= 0 by {
                assert(p.drop_last()[j] == p[j]);
            }
        }
        lemma_hex_nonneg(p.drop_last());
    }
}

fn line_port_exec(l: &[char]) -> (r: Option<u16>)
    ensures
        r == line_port(l@),
{
    match second_field(l) {
        None => None,
        Some(f) => {
            let t = after_last_colon_exec(f.as_slice());
            match parse_hex_u16_exec(t.as_slice()) {
                Some(p) => if p != 0 {
                    Some(p)
                } else {
                    None
                },
                None => None,
            }
        },
    }
}

/// The local ports listed in a `/proc/net/udp` or `/proc/net/udp6` text:
/// for each line after the header, the hex port after the last `:` of its
/// second field, when that parses and is not zero.
pub fn parse_proc_net_udp(text: &str) -> (ports: Vec<u16>)
    ensures
        ports@ == proc_udp_ports(text@),
{
    let t = str_chars(text);
    let n = t.len();
    let mut ports: Vec<u16> = Vec::new();
    let mut p: usize = 0;
    let mut first = true;
    let ghost all = std_lines_from(t@, 0);
    while p < n
        invariant
            p <= n,
            n == t@.len(),
            t@ == text@,
            all == std_lines_from(t@, 0),
            first ==> p == 0,
            first ==> ports@.len() == 0,
            !first ==> all.len() >= 1 && std_lines_from(t@, p as int).len() < all.len()
                && all =~= all.subrange(0, all.len() - std_lines_from(t@, p as int).len()) + std_lines_from(t@, p as int)
                && ports@ == lines_ports(all.subrange(1, all.len() - std_lines_from(t@, p as int).len())),
        decreases n - p,
    {
        proof {
            lemma_newline_bounds(t@, p as int);
        }
        let mut k = p;
        while k < n && t[k] != '\n'
            invariant
                p <= k <= n,
                n == t@.len(),
                newline_from(t@, k as int) == newline_from(t@, p as int),
            decreases n - k,
        {
            k += 1;
        }
        let mut line = slice_vec(t.as_slice(), p, k);
        if line.len() > 0 && line[line.len() - 1] == '\r' {
            line.pop();
        }
        let ghost rest = std_lines_from(t@, p as int);
        assert(rest =~= seq![line@] + std_lines_from(t@, k + 1));
        if first {
            first = false;
            proof {
                assert(all.subrange(1, all.len() - std_lines_from(t@, k + 1).len()) =~= Seq::<Seq<char>>::empty());
            }
        } else {
            let ghost before = ports@;
            let ghost done_len = all.len() - rest.len();
            match line_port_exec(line.as_slice()) {
                Some(q) => ports.push(q),
                None => {},
            }
            proof {
                let upto = all.subrange(1, done_len + 1);
                assert(upto.drop_last() =~= all.subrange(1, done_len));
                assert(all[done_len] == line@);
                assert(upto.last() == line@);
            }
        }
        assert(all =~= all.subrange(0, all.len() - std_lines_from(t@, k + 1).len()) + std_lines_from(t@, k + 1));
        if k < n {
            p = k + 1;
        } else {
            p = n;
        }
    }
    proof {
        if !first {
            assert(std_lines_from(t@, p as int) =~= Seq::<Seq<char>>::empty());
            assert(all.subrange(1, all.len() as int) =~= all.subrange(1, all.len() - 0));
        } else {
            assert(all =~= Seq::<Seq<char>>::empty());
        }
    }
    ports
}

// ----------------------------------------------------------------------------
// The provider.
// ----------------------------------------------------------------------------

/// Ports in use or reserved, and the random source's state.
pub struct PortProvider {
    used: BTreeSet<u16>,
    state: u64,
}

impl PortProvider {
    /// The ports the provider will not hand out.
    pub closed spec fn used_ports(&self) -> Set<u16> {
        self.used@
    }

    /// The random source's state.
    pub closed spec fn seed(&self) -> u64 {
        self.state
    }

    /// A provider over the given used ports and random state.
    pub fn seeded(ports: &[u16], state: u64) -> (pp: Self)
        ensures
            pp.used_ports() == ports@.to_set(),
            pp.seed() == state,
    {
        let mut used: BTreeSet<u16> = BTreeSet::new();
        let mut i: usize = 0;
        while i < ports.len()
            invariant
                i <= ports@.len(),
                used@ == ports@.subrange(0, i as int).to_set(),
            decreases ports@.len() - i,
        {
            used.insert(ports[i]);
            proof {
                let s = ports@.subrange(0, i + 1);
                assert(s =~= ports@.subrange(0, i as int).push(ports@[i as int]));
                ports@.subrange(0, i as int).lemma_push_to_set_commute(ports@[i as int]);
                assert(s.to_set() =~= ports@.subrange(0, i as int).to_set().insert(ports@[i as int]));
            }
            i += 1;
        }
        assert(ports@.subrange(0, ports@.len() as int) =~= ports@);
        PortProvider { used, state }
    }

    /// A provider for tests: the given used ports and a fixed seed.
    pub fn with_used(ports: &[u16]) -> (pp: Self)
        ensures
            pp.used_ports() == ports@.to_set(),
            pp.seed() == 0xC0FFEE,
    {
        Self::seeded(ports, 0xC0FFEE)
    }

    /// Reserves fixed ports (reserving twice is harmless).
    pub fn reserve(&mut self, ports: &[u16])
        ensures
            final(self).used_ports() == old(self).used_ports() + ports@.to_set(),
            final(self).seed() == old(self).seed(),
    {
        let ghost u0 = self.used@;
        let mut i: usize = 0;
        while i < ports.len()
            invariant
                i <= ports@.len(),
                self.used@ == u0 + ports@.subrange(0, i as int).to_set(),
                self.state == old(self).state,
                u0 == old(self).used@,
            decreases ports@.len() - i,
        {
            self.used.insert(ports[i]);
            proof {
                let s = ports@.subrange(0, i + 1);
                assert(s =~= ports@.subrange(0, i as int).push(ports@[i as int]));
                ports@.subrange(0, i as int).lemma_push_to_set_commute(ports@[i as int]);
                assert(s.to_set() =~= ports@.subrange(0, i as int).to_set().insert(ports@[i as int]));
                assert(u0 + s.to_set() =~= (u0 + ports@.subrange(0, i as int).to_set()).insert(ports@[i as int]));
            }
            i += 1;
        }
        assert(ports@.subrange(0, ports@.len() as int) =~= ports@);
    }

    /// A random free port: up to 64 draws, skipping used or reserved ports
    /// and those `can_bind` refuses; the port found becomes used and the
    /// random state moves on past its draw. `None` after 64 fruitless draws,
    /// nothing changed.
    pub fn free_port<F: Fn(u16) -> bool>(&mut self, can_bind: F) -> (r: Option<u16>)
        requires
            forall|p: u16| call_requires(can_bind, (p,)),
        ensures
            match r {
                Some(p) => exists|k: int| {
                    &&& 0 <= k < 64
                    &&& p == draw_port(old(self).seed(), k)
                    &&& forall|j: int| 0 <= j < k ==> #[trigger] draw_refused(old(self).used_ports(), can_bind, draw_port(old(self).seed(), j))
                    &&& !old(self).used_ports().contains(p)
                    &&& call_ensures(can_bind, (p,), true)
                    &&& final(self).seed() == draw_state(old(self).seed(), k + 1)
                    &&& final(self).used_ports() == old(self).used_ports().insert(p)
                },
                None => {
                    &&& forall|j: int| 0 <= j < 64 ==> #[trigger] draw_refused(old(self).used_ports(), can_bind, draw_port(old(self).seed(), j))
                    &&& final(self).used_ports() == old(self).used_ports()
                    &&& final(self).seed() == old(self).seed()
                },
            },
            r matches Some(p) ==> PORT_MIN <= p <= PORT_MAX,
            free_port_step(old(self).used_ports(), r, final(self).used_ports()),
    {
        let ghost s0 = self.state;
        let ghost u0 = self.used@;
        let mut rng = SplitMix64::new(self.state);
        let mut n: u32 = 0;
        while n < 64
            invariant
                n <= 64,
                self.used@ == old(self).used@,
                self.state == old(self).state,
                s0 == old(self).seed(),
                u0 == old(self).used_ports(),
                rng.0 == draw_state(s0, n as int),
                forall|j: int| 0 <= j < n ==> #[trigger] draw_refused(u0, can_bind, draw_port(s0, j)),
                forall|p: u16| call_requires(can_bind, (p,)),
            decreases 64 - n,
        {
            let candidate = rng.pick();
            proof {
                assert(draw_state(s0, n + 1) == splitmix_next_state(draw_state(s0, n as int)));
                assert(candidate == draw_port(s0, n as int));
            }
            n += 1;
            if self.used.contains(&candidate) {
                assert(draw_refused(u0, can_bind, draw_port(s0, n - 1)));
                continue;
            }
            if can_bind(candidate) {
                self.state = rng.0;
                self.used.insert(candidate);
                assert(candidate == draw_port(s0, n - 1));
                return Some(candidate);
            }
            assert(draw_refused(u0, can_bind, draw_port(s0, n - 1)));
        }
        None
    }
}

/// The random state after `k` draws from state `s`.
pub open spec fn draw_state(s: u64, k: int) -> u64
    decreases k,
{
    if k <= 0 {
        s
    } else {
        splitmix_next_state(draw_state(s, k - 1))
    }
}

/// The port of draw `k` (counting from 0) from state `s`.
pub open spec fn draw_port(s: u64, k: int) -> u16 {
    port_of_state(draw_state(s, k))
}

/// A drawn port is passed over: it is used, or `can_bind` refused it.
pub open spec fn draw_refused<F: Fn(u16) -> bool>(used: Set<u16>, can_bind: F, p: u16) -> bool {
    used.contains(p) || call_ensures(can_bind, (p,), false)
}

/// A port that was reserved, or handed out before, is never handed out:
/// after `reserve(ports)` on a provider whose used ports were `before`, a
/// port that `free_port` then returns is none of them.
pub proof fn law_reserved_never_handed_out(before: Set<u16>, ports: Seq<u16>, after: Set<u16>, p: u16)
    requires
        after == before + ports.to_set(),
        !after.contains(p),
    ensures
        !ports.contains(p),
        !before.contains(p),
{
    if ports.contains(p) {
        let k = choose|k: int| 0 <= k < ports.len() && ports[k] == p;
        assert(ports.to_set().contains(ports[k]));
    }
}

/// One call of `free_port` as seen in the used ports: a port handed out was
/// not used before and is used after; without one, the used ports stay.
pub open spec fn free_port_step(before: Set<u16>, r: Option<u16>, after: Set<u16>) -> bool {
    match r {
        Some(p) => !before.contains(p) && after == before.insert(p),
        None => after == before,
    }
}

/// A run of `free_port` calls: `used[i]` before the `i`-th call, `got[i]`
/// what it handed out.
pub open spec fn free_port_run(used: Seq<Set<u16>>, got: Seq<Option<u16>>) -> bool {
    &&& used.len() == got.len() + 1
    &&& forall|i: int| 0 <= i < got.len() ==> #[trigger] free_port_step(used[i], got[i], used[i + 1])
}

proof fn lemma_used_grows(used: Seq<Set<u16>>, got: Seq<Option<u16>>, i: int, j: int)
    requires
        free_port_run(used, got),
        0 <= i <= j <= got.len(),
    ensures
        used[i].subset_of(used[j]),
    decreases j - i,
{
    if i < j {
        lemma_used_grows(used, got, i, j - 1);
        let m = j - 1;
        assert(free_port_step(used[m], got[m], used[m + 1]));
        assert(m + 1 == j);
    }
}

/// Over a run of calls, `free_port` never hands out a port twice, nor one
/// that was used before the run.
pub proof fn law_free_ports_distinct(used: Seq<Set<u16>>, got: Seq<Option<u16>>)
    requires
        free_port_run(used, got),
    ensures
        forall|i: int, j: int| 0 <= i < j < got.len() && got[i] is Some && got[j] is Some
            ==> #[trigger] got[i]->0 != #[trigger] got[j]->0,
        forall|i: int| 0 <= i < got.len() && got[i] is Some ==> !used[0].contains(#[trigger] got[i]->0),
{
    assert forall|i: int, j: int| 0 <= i < j < got.len() && got[i] is Some && got[j] is Some
        implies #[trigger] got[i]->0 != #[trigger] got[j]->0 by {
        assert(free_port_step(used[i], got[i], used[i + 1]));
        assert(free_port_step(used[j], got[j], used[j + 1]));
        lemma_used_grows(used, got, i + 1, j);
        assert(used[i + 1].contains(got[i]->0));
    }
    assert forall|i: int| 0 <= i < got.len() && got[i] is Some implies !used[0].contains(#[trigger] got[i]->0) by {
        assert(free_port_step(used[i], got[i], used[i + 1]));
        lemma_used_grows(used, got, 0, i);
    }
}

/// Reserving ports a second time changes nothing: the used ports after two
/// reservations of the same list are those after one.
pub proof fn law_reserve_twice(before: Set<u16>, ports: Seq<u16>)
    ensures
        (before + ports.to_set()) + ports.to_set() == before + ports.to_set(),
{
    assert((before + ports.to_set()) + ports.to_set() =~= before + ports.to_set());
}

} // verus!
