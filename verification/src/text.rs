//! Text helpers shared by the reply parsers: conversions between byte buffers,
//! character vectors and `String`, plus small verified formatting routines.

use vstd::prelude::*;
use vstd::utf8::*;

verus! {

/// What `String::from_utf8_lossy` yields for a byte sequence.
pub uninterp spec fn lossy_utf8(bytes: Seq<u8>) -> Seq<char>;

/// Decodes bytes as UTF-8, replacing invalid sequences (std `String::from_utf8_lossy`).
/// Trusted: the result is the named lossy decoding of the bytes, and for valid
/// UTF-8 input it is the plain decoding, as std documents.
#[verifier::external_body]
pub(crate) fn utf8_lossy(bytes: &[u8]) -> (chars: Vec<char>)
    ensures
        chars@ == lossy_utf8(bytes@),
        valid_utf8(bytes@) ==> chars@ == decode_utf8(bytes@),
{
    String::from_utf8_lossy(bytes).chars().collect()
}

/// Decodes bytes as UTF-8 (std `str::from_utf8`). Trusted: the result is
/// present exactly for valid UTF-8, and is then the decoding, as std documents.
#[verifier::external_body]
pub(crate) fn utf8_strict(bytes: &[u8]) -> (chars: Option<Vec<char>>)
    ensures
        match chars {
            Some(c) => valid_utf8(bytes@) && c@ == decode_utf8(bytes@),
            None => !valid_utf8(bytes@),
        },
{
    match std::str::from_utf8(bytes) {
        Ok(s) => Some(s.chars().collect()),
        Err(_) => None,
    }
}

/// The characters of a string slice (std `str::chars`, collected).
/// Trusted: the vector holds exactly the characters of the slice, in order.
#[verifier::external_body]
pub(crate) fn str_chars(s: &str) -> (chars: Vec<char>)
    ensures
        chars@ == s@,
{
    s.chars().collect()
}

/// Builds a `String` from characters (std `FromIterator<char> for String`).
/// Trusted: the string holds exactly the given characters, in order.
#[verifier::external_body]
pub(crate) fn string_from_chars(chars: &[char]) -> (s: String)
    ensures
        s@ == chars@,
{
    chars.iter().collect()
}

/// What `str::to_lowercase` yields for a text: its Unicode lower case.
pub uninterp spec fn unicode_lower(s: Seq<char>) -> Seq<char>;

/// The Unicode lower case of a text (std `str::to_lowercase`, whose result
/// depends on the text alone), as characters. Trusted: the result is the
/// named lower case of the text; nothing more of it is stated here.
#[verifier::external_body]
pub(crate) fn unicode_lowercase(s: &str) -> (chars: Vec<char>)
    ensures
        chars@ == unicode_lower(s@),
{
    s.to_lowercase().chars().collect()
}

/// An owned string with the given literal's characters.
pub fn owned(s: &str) -> (r: String)
    ensures
        r@ == s@,
{
    s.to_owned()
}

/// ASCII letter case folding on one character.
pub open spec fn lower_char(c: char) -> char {
    if 'A' <= c && c <= 'Z' {
        ((c as u32) + 32) as char
    } else {
        c
    }
}

pub open spec fn upper_char(c: char) -> char {
    if 'a' <= c && c <= 'z' {
        ((c as u32) - 32) as char
    } else {
        c
    }
}

pub fn to_lower_char(c: char) -> (r: char)
    ensures
        r == lower_char(c),
{
    if 'A' <= c && c <= 'Z' {
        ((c as u8) + 32) as char
    } else {
        c
    }
}

pub fn to_upper_char(c: char) -> (r: char)
    ensures
        r == upper_char(c),
{
    if 'a' <= c && c <= 'z' {
        ((c as u8) - 32) as char
    } else {
        c
    }
}

/// Upper-case hexadecimal digit for a nibble.
pub open spec fn hex_digit(n: int) -> char {
    if n < 10 {
        (48 + n) as char
    } else {
        (55 + n) as char
    }
}

/// `{:02X}` of a byte.
pub open spec fn hex2(b: u8) -> Seq<char> {
    seq![hex_digit(b as int / 16), hex_digit(b as int % 16)]
}

pub fn hex_digit_exec(n: u8) -> (c: char)
    requires
        n < 16,
    ensures
        c == hex_digit(n as int),
{
    if n < 10 {
        (48 + n) as char
    } else {
        (55 + n) as char
    }
}

/// Appends `{:02X}` of a byte.
pub fn push_hex2(out: &mut Vec<char>, b: u8)
    ensures
        final(out)@ == old(out)@ + hex2(b),
{
    out.push(hex_digit_exec(b / 16));
    out.push(hex_digit_exec(b % 16));
    assert(final(out)@ =~= old(out)@ + hex2(b));
}

/// Colon-separated upper-case hex of six bytes: `AA:BB:CC:DD:EE:FF`.
pub open spec fn mac_chars(b: Seq<u8>) -> Seq<char> {
    hex2(b[0]) + seq![':'] + hex2(b[1]) + seq![':'] + hex2(b[2]) + seq![':'] + hex2(b[3])
        + seq![':'] + hex2(b[4]) + seq![':'] + hex2(b[5])
}

/// Formats `b[start..start+6]` as `AA:BB:CC:DD:EE:FF`.
pub fn mac_chars_at(b: &[u8], start: usize) -> (v: Vec<char>)
    requires
        start + 6 <= b.len(),
    ensures
        v@ == mac_chars(b@.subrange(start as int, start + 6)),
{
    let ghost m = b@.subrange(start as int, start + 6);
    let mut v: Vec<char> = Vec::new();
    let mut i: usize = 0;
    while i < 6
        invariant
            i <= 6,
            start + 6 <= b.len(),
            m == b@.subrange(start as int, start + 6),
            v@ == (if i == 0 { Seq::<char>::empty() } else { mac_prefix(m, i as int) }),
        decreases 6 - i,
    {
        if i > 0 {
            v.push(':');
        }
        push_hex2(&mut v, b[start + i]);
        i += 1;
    }
    assert(v@ =~= mac_chars(m)) by {
        reveal_with_fuel(mac_prefix, 6);
    }
    v
}

/// The first `n` (1..=6) hex pairs of a MAC, colon separated.
pub open spec fn mac_prefix(b: Seq<u8>, n: int) -> Seq<char>
    decreases n,
{
    if n <= 1 {
        hex2(b[0])
    } else {
        mac_prefix(b, n - 1) + seq![':'] + hex2(b[n - 1])
    }
}

/// Decimal digits of a natural number.
pub open spec fn decimal(n: nat) -> Seq<char>
    decreases n,
{
    if n < 10 {
        seq![(48 + n) as char]
    } else {
        decimal(n / 10) + seq![(48 + n % 10) as char]
    }
}

/// Appends the decimal representation of `n`.
pub fn push_decimal(out: &mut Vec<char>, n: u64)
    ensures
        final(out)@ == old(out)@ + decimal(n as nat),
    decreases n,
{
    if n < 10 {
        out.push((48 + n) as u8 as char);
    } else {
        push_decimal(out, n / 10);
        out.push((48 + n % 10) as u8 as char);
    }
    assert(final(out)@ =~= old(out)@ + decimal(n as nat));
}

/// The first index of a character at or after `from`, if any.
pub open spec fn find_char_from(s: Seq<char>, c: char, from: int) -> Option<int>
    decreases s.len() - from,
{
    if from >= s.len() || from < 0 {
        None
    } else if s[from] == c {
        Some(from)
    } else {
        find_char_from(s, c, from + 1)
    }
}

pub fn find_char(s: &[char], c: char, from: usize) -> (r: Option<usize>)
    ensures
        r matches Some(i) ==> find_char_from(s@, c, from as int) == Some(i as int),
        r is None ==> find_char_from(s@, c, from as int) is None,
    decreases s.len() - from,
{
    if from >= s.len() {
        None
    } else if s[from] == c {
        Some(from)
    } else {
        find_char(s, c, from + 1)
    }
}

/// Copies a sub-slice into a new vector.
pub fn slice_vec<T: Copy>(s: &[T], start: usize, end: usize) -> (v: Vec<T>)
    requires
        start <= end <= s@.len(),
    ensures
        v@ == s@.subrange(start as int, end as int),
{
    let mut v: Vec<T> = Vec::new();
    let mut i = start;
    while i < end
        invariant
            start <= i <= end <= s@.len(),
            v@ == s@.subrange(start as int, i as int),
        decreases end - i,
    {
        v.push(s[i]);
        i += 1;
        assert(v@ =~= s@.subrange(start as int, i as int));
    }
    v
}

/// Unicode White_Space (what `char::is_whitespace` accepts).
pub open spec fn is_ws(c: char) -> bool {
    let u = c as u32;
    (0x09 <= u && u <= 0x0D) || u == 0x20 || u == 0x85 || u == 0xA0 || u == 0x1680
        || (0x2000 <= u && u <= 0x200A) || u == 0x2028 || u == 0x2029 || u == 0x202F || u == 0x205F
        || u == 0x3000
}

pub fn is_ws_exec(c: char) -> (r: bool)
    ensures
        r == is_ws(c),
{
    let u = c as u32;
    (0x09 <= u && u <= 0x0D) || u == 0x20 || u == 0x85 || u == 0xA0 || u == 0x1680
        || (0x2000 <= u && u <= 0x200A) || u == 0x2028 || u == 0x2029 || u == 0x202F || u == 0x205F
        || u == 0x3000
}

/// Index of the first non-whitespace character at or after `i` (or the length).
pub open spec fn ws_end(s: Seq<char>, i: int) -> int
    decreases s.len() - i,
{
    if i < 0 || i >= s.len() || !is_ws(s[i]) {
        i
    } else {
        ws_end(s, i + 1)
    }
}

/// One past the last non-whitespace character before `j` (or `lo`).
pub open spec fn ws_start(s: Seq<char>, lo: int, j: int) -> int
    decreases j - lo,
{
    if j <= lo || j > s.len() || !is_ws(s[j - 1]) {
        j
    } else {
        ws_start(s, lo, j - 1)
    }
}

/// The text without leading and trailing whitespace (`str::trim`).
pub open spec fn trim(s: Seq<char>) -> Seq<char> {
    let a = ws_end(s, 0);
    s.subrange(a, ws_start(s, a, s.len() as int))
}

proof fn lemma_ws_end(s: Seq<char>, i: int)
    requires
        0 <= i <= s.len(),
    ensures
        i <= ws_end(s, i) <= s.len(),
    decreases s.len() - i,
{
    if i < s.len() && is_ws(s[i]) {
        lemma_ws_end(s, i + 1);
    }
}

proof fn lemma_ws_start(s: Seq<char>, lo: int, j: int)
    requires
        0 <= lo <= j <= s.len(),
    ensures
        lo <= ws_start(s, lo, j) <= j,
    decreases j - lo,
{
    if j > lo && is_ws(s[j - 1]) {
        lemma_ws_start(s, lo, j - 1);
    }
}

pub fn trim_exec(s: &[char]) -> (r: Vec<char>)
    ensures
        r@ == trim(s@),
{
    let mut a: usize = 0;
    while a < s.len() && is_ws_exec(s[a])
        invariant
            a <= s@.len(),
            ws_end(s@, a as int) == ws_end(s@, 0),
        decreases s@.len() - a,
    {
        a += 1;
    }
    let mut b: usize = s.len();
    while b > a && is_ws_exec(s[b - 1])
        invariant
            a <= b <= s@.len(),
            ws_end(s@, 0) == a,
            ws_start(s@, a as int, b as int) == ws_start(s@, a as int, s@.len() as int),
        decreases b,
    {
        b -= 1;
    }
    slice_vec(s, a, b)
}


// ----------------------------------------------------------------------------
// Lines as `str::lines` splits them.
// ----------------------------------------------------------------------------

/// Index of the first `\n` at or after `p`, or the length.
pub open spec fn newline_from(t: Seq<char>, p: int) -> int
    decreases t.len() - p,
{
    if p < 0 || p >= t.len() {
        t.len() as int
    } else if t[p] == '\n' {
        p
    } else {
        newline_from(t, p + 1)
    }
}

/// A line without its trailing `\r`.
pub open spec fn strip_cr(l: Seq<char>) -> Seq<char> {
    if l.len() > 0 && l.last() == '\r' {
        l.drop_last()
    } else {
        l
    }
}

/// The lines from position `p` on, as `str::lines` gives them: split at
/// `\n`, one trailing `\r` removed, no empty last line after a final `\n`.
pub open spec fn std_lines_from(t: Seq<char>, p: int) -> Seq<Seq<char>>
    decreases t.len() - p + 1,
{
    if p < 0 || p >= t.len() {
        Seq::empty()
    } else {
        let k = newline_from(t, p);
        if k < p || k > t.len() {
            Seq::empty()
        } else {
            seq![strip_cr(t.subrange(p, k))] + std_lines_from(t, k + 1)
        }
    }
}

pub proof fn lemma_newline_bounds(t: Seq<char>, p: int)
    requires
        0 <= p <= t.len(),
    ensures
        p <= newline_from(t, p) <= t.len(),
        newline_from(t, p) < t.len() ==> t[newline_from(t, p)] == '\n',
    decreases t.len() - p,
{
    if p < t.len() && t[p] != '\n' {
        lemma_newline_bounds(t, p + 1);
    }
}

/// The views of a list of character vectors.
pub open spec fn line_seqs(v: Seq<Vec<char>>) -> Seq<Seq<char>> {
    v.map_values(|l: Vec<char>| l@)
}

/// Splits a text into lines as `str::lines` does.
pub fn std_lines(t: &[char]) -> (lines: Vec<Vec<char>>)
    ensures
        line_seqs(lines@) == std_lines_from(t@, 0),
{
    let n = t.len();
    let mut lines: Vec<Vec<char>> = Vec::new();
    let mut p: usize = 0;
    while p < n
        invariant
            p <= n,
            n == t@.len(),
            std_lines_from(t@, 0) == line_seqs(lines@) + std_lines_from(t@, p as int),
        decreases n - p,
    {
        proof {
            lemma_newline_bounds(t@, p as int);
        }
        let mut k = p;
        while k < n && t[k] != '\n'
            invariant
                p <= k <= n,
                n == t@.len(),
                newline_from(t@, k as int) == newline_from(t@, p as int),
            decreases n - k,
        {
            k += 1;
        }
        let mut line = slice_vec(t, p, k);
        if line.len() > 0 && line[line.len() - 1] == '\r' {
            line.pop();
        }
        let ghost before = lines@;
        lines.push(line);
        assert(line_seqs(lines@) =~= line_seqs(before).push(line@));
        assert(std_lines_from(t@, p as int) =~= seq![line@] + std_lines_from(t@, k + 1));
        if k < n {
            p = k + 1;
        } else {
            p = n;
        }
    }
    assert(std_lines_from(t@, p as int) =~= Seq::<Seq<char>>::empty());
    assert(line_seqs(lines@) =~= std_lines_from(t@, 0));
    lines
}

/// The text without trailing whitespace (`str::trim_end`).
pub open spec fn trim_end(s: Seq<char>) -> Seq<char> {
    s.subrange(0, ws_start(s, 0, s.len() as int))
}

pub fn trim_end_exec(s: &[char]) -> (r: Vec<char>)
    ensures
        r@ == trim_end(s@),
{
    let mut b: usize = s.len();
    while b > 0 && is_ws_exec(s[b - 1])
        invariant
            b <= s@.len(),
            ws_start(s@, 0, b as int) == ws_start(s@, 0, s@.len() as int),
        decreases b,
    {
        b -= 1;
    }
    slice_vec(s, 0, b)
}

} // verus!
