//! Helpers shared by the reply parsers: NUL-terminated fields, line splitting
//! and `key:value` lookup.

use vstd::prelude::*;
use crate::text::{lossy_utf8, utf8_lossy, slice_vec, owned, string_from_chars, str_chars, find_char, find_char_from};
use crate::ip::IpAddr;
use crate::devices::{Device, DeviceView};

verus! {

/// Index of the first NUL byte, or the length when there is none.
pub open spec fn nul_index(b: Seq<u8>) -> int
    decreases b.len(),
{
    if b.len() == 0 {
        0
    } else if nul_index(b.drop_last()) < b.len() - 1 {
        nul_index(b.drop_last())
    } else if b.last() == 0 {
        b.len() - 1
    } else {
        b.len() as int
    }
}

/// Text of a fixed-size field: the bytes up to the first NUL, decoded leniently.
pub open spec fn cstr(b: Seq<u8>) -> Seq<char> {
    lossy_utf8(b.subrange(0, nul_index(b)))
}

proof fn lemma_nul_index_bounds(b: Seq<u8>)
    ensures
        0 <= nul_index(b) <= b.len(),
    decreases b.len(),
{
    if b.len() > 0 {
        lemma_nul_index_bounds(b.drop_last());
    }
}

/// Decodes the bytes of `data[start..end]` up to the first NUL.
pub fn cstring(data: &[u8], start: usize, end: usize) -> (r: Vec<char>)
    requires
        start <= end <= data@.len(),
    ensures
        r@ == cstr(data@.subrange(start as int, end as int)),
{
    let ghost b = data@.subrange(start as int, end as int);
    let mut n: usize = 0;
    while n < end - start && data[start + n] != 0
        invariant
            start <= end <= data@.len(),
            n <= end - start,
            b == data@.subrange(start as int, end as int),
            nul_index(b.subrange(0, n as int)) == n,
        decreases end - start - n,
    {
        proof {
            assert(b.subrange(0, n + 1).drop_last() =~= b.subrange(0, n as int));
        }
        n += 1;
    }
    proof {
        lemma_nul_prefix(b, n as int);
    }
    let v = slice_vec(data, start, start + n);
    assert(v@ =~= b.subrange(0, nul_index(b)));
    utf8_lossy(v.as_slice())
}

/// The first NUL is at `n` when the first `n` bytes hold none and byte `n`
/// is NUL or the end.
proof fn lemma_nul_prefix(b: Seq<u8>, n: int)
    requires
        0 <= n <= b.len(),
        nul_index(b.subrange(0, n)) == n,
        n == b.len() || b[n] == 0,
    ensures
        nul_index(b) == n,
    decreases b.len() - n,
{
    if n < b.len() {
        assert(b.subrange(0, n + 1).drop_last() =~= b.subrange(0, n));
        assert(nul_index(b.subrange(0, n + 1)) == n);
        lemma_nul_extend(b, b.len() as int, n);
        assert(b.subrange(0, b.len() as int) =~= b);
    } else {
        assert(b.subrange(0, n) =~= b);
    }
}

proof fn lemma_nul_extend(b: Seq<u8>, m: int, n: int)
    requires
        0 <= n < m <= b.len(),
        nul_index(b.subrange(0, n + 1)) == n,
    ensures
        nul_index(b.subrange(0, m)) == n,
    decreases m - n,
{
    if m > n + 1 {
        lemma_nul_extend(b, m - 1, n);
        assert(b.subrange(0, m).drop_last() =~= b.subrange(0, m - 1));
    }
}

/// Line breaks for the text protocols.
pub open spec fn is_break(c: char) -> bool {
    c == '\r' || c == '\n'
}

/// First index at or after `p` holding a line break, or the length.
pub open spec fn break_from(t: Seq<char>, p: int) -> int
    decreases t.len() - p,
{
    if p < 0 || p >= t.len() {
        t.len() as int
    } else if is_break(t[p]) {
        p
    } else {
        break_from(t, p + 1)
    }
}

/// The non-empty lines of `t` from position `p` on, lines being separated
/// by `\r` or `\n`.
pub open spec fn lines_from(t: Seq<char>, p: int) -> Seq<Seq<char>>
    decreases t.len() - p + 1,
{
    if p < 0 || p >= t.len() {
        Seq::empty()
    } else {
        let k = break_from(t, p);
        let l = t.subrange(p, k);
        if k < p || k > t.len() {
            Seq::empty()
        } else if l.len() > 0 {
            seq![l] + lines_from(t, k + 1)
        } else {
            lines_from(t, k + 1)
        }
    }
}

/// The non-empty lines of a text.
pub open spec fn text_lines(t: Seq<char>) -> Seq<Seq<char>> {
    lines_from(t, 0)
}

proof fn lemma_break_from_bounds(t: Seq<char>, p: int)
    requires
        0 <= p <= t.len(),
    ensures
        p <= break_from(t, p) <= t.len(),
    decreases t.len() - p,
{
    if p < t.len() && !is_break(t[p]) {
        lemma_break_from_bounds(t, p + 1);
    }
}

pub fn find_break(t: &[char], p: usize) -> (k: usize)
    requires
        p <= t@.len(),
    ensures
        k as int == break_from(t@, p as int),
        p <= k <= t@.len(),
    decreases t@.len() - p,
{
    if p >= t.len() {
        t.len()
    } else if t[p] == '\r' || t[p] == '\n' {
        p
    } else {
        find_break(t, p + 1)
    }
}

/// The views of a list of character vectors.
pub open spec fn char_views(v: Seq<Vec<char>>) -> Seq<Seq<char>> {
    v.map_values(|l: Vec<char>| l@)
}

/// Splits a text into its non-empty lines.
pub fn split_lines(t: &[char]) -> (lines: Vec<Vec<char>>)
    ensures
        char_views(lines@) == text_lines(t@),
{
    let mut done: Vec<Vec<char>> = Vec::new();
    let mut p: usize = 0;
    while p < t.len()
        invariant
            p <= t@.len(),
            text_lines(t@) == char_views(done@) + lines_from(t@, p as int),
        decreases t@.len() - p,
    {
        let k = find_break(t, p);
        let ghost before = done@;
        if k > p {
            let l = slice_vec(t, p, k);
            done.push(l);
            assert(char_views(done@) =~= char_views(before) + seq![t@.subrange(p as int, k as int)]);
        }
        assert(char_views(done@) + lines_from(t@, k + 1) =~= char_views(before) + lines_from(t@, p as int));
        if k < t.len() {
            p = k + 1;
        } else {
            p = t.len();
        }
    }
    assert(lines_from(t@, p as int) =~= Seq::<Seq<char>>::empty());
    assert(char_views(done@) =~= text_lines(t@));
    done
}

/// Index of the first `c` in a line, if any.
pub open spec fn index_of(l: Seq<char>, c: char) -> Option<int> {
    crate::text::find_char_from(l, c, 0)
}

/// For `key:value` lines, the value of the last line whose key (the text
/// before the first `:`) equals `key`.
pub open spec fn last_value(lines: Seq<Seq<char>>, key: Seq<char>) -> Option<Seq<char>>
    decreases lines.len(),
{
    if lines.len() == 0 {
        None
    } else {
        let l = lines.last();
        match index_of(l, ':') {
            Some(i) => if l.subrange(0, i) == key {
                Some(l.subrange(i + 1, l.len() as int))
            } else {
                last_value(lines.drop_last(), key)
            },
            None => last_value(lines.drop_last(), key),
        }
    }
}

pub proof fn lemma_find_char_bounds(s: Seq<char>, c: char, from: int)
    requires
        0 <= from,
    ensures
        crate::text::find_char_from(s, c, from) matches Some(i) ==> from <= i < s.len() && s[i] == c,
    decreases s.len() - from,
{
    if from < s.len() && s[from] != c {
        lemma_find_char_bounds(s, c, from + 1);
    }
}

/// Compares two character slices.
pub fn chars_eq(a: &[char], b: &[char]) -> (r: bool)
    ensures
        r == (a@ == b@),
{
    if a.len() != b.len() {
        return false;
    }
    let mut i: usize = 0;
    while i < a.len()
        invariant
            i <= a@.len(),
            a@.len() == b@.len(),
            forall|j: int| 0 <= j < i ==> a@[j] == b@[j],
        decreases a@.len() - i,
    {
        if a[i] != b[i] {
            return false;
        }
        i += 1;
    }
    assert(a@ =~= b@);
    true
}

/// Whether `a[start..start+b.len()]` equals `b`.
pub fn chars_eq_at(a: &[char], start: usize, b: &[char]) -> (r: bool)
    ensures
        r == (start + b@.len() <= a@.len() && a@.subrange(start as int, start + b@.len()) == b@),
{
    if start > a.len() || b.len() > a.len() - start {
        return false;
    }
    let alen = a.len();
    let mut i: usize = 0;
    while i < b.len()
        invariant
            i <= b@.len(),
            alen == a@.len(),
            start + b@.len() <= a@.len(),
            forall|j: int| 0 <= j < i ==> a@[start + j] == b@[j],
        decreases b@.len() - i,
    {
        assert(start + i < alen);
        if a[start + i] != b[i] {
            assert(a@.subrange(start as int, start + b@.len())[i as int] != b@[i as int]);
            return false;
        }
        i += 1;
    }
    assert(a@.subrange(start as int, start + b@.len()) =~= b@);
    true
}

/// Looks up the value of the last `key:value` line with the given key.
pub fn last_value_exec(lines: &Vec<Vec<char>>, key: &[char]) -> (r: Option<Vec<char>>)
    ensures
        match r {
            Some(v) => last_value(char_views(lines@), key@) == Some(v@),
            None => last_value(char_views(lines@), key@) is None,
        },
{
    let mut found: Option<Vec<char>> = None;
    let mut i: usize = 0;
    while i < lines.len()
        invariant
            i <= lines@.len(),
            match found {
                Some(v) => last_value(char_views(lines@).subrange(0, i as int), key@) == Some(v@),
                None => last_value(char_views(lines@).subrange(0, i as int), key@) is None,
            },
        decreases lines@.len() - i,
    {
        let l = &lines[i];
        proof {
            assert(char_views(lines@).subrange(0, i + 1).drop_last() =~= char_views(lines@).subrange(0, i as int));
            assert(char_views(lines@).subrange(0, i + 1).last() == l@);
            lemma_find_char_bounds(l@, ':', 0);
        }
        match crate::text::find_char(l.as_slice(), ':', 0) {
            Some(c) => {
                let llen = l.len();
                assert(c < llen);
                let k = slice_vec(l.as_slice(), 0, c);
                if chars_eq(k.as_slice(), key) {
                    found = Some(slice_vec(l.as_slice(), c + 1, llen));
                }
            },
            None => {},
        }
        i += 1;
    }
    assert(char_views(lines@).subrange(0, lines@.len() as int) =~= char_views(lines@));
    found
}

/// The text before the first `c`, or all of it.
pub open spec fn cut_at(s: Seq<char>, c: char) -> Seq<char> {
    match index_of(s, c) {
        Some(i) => s.subrange(0, i),
        None => s,
    }
}

pub fn cut_at_exec(s: &[char], c: char) -> (r: Vec<char>)
    ensures
        r@ == cut_at(s@, c),
{
    proof {
        lemma_find_char_bounds(s@, c, 0);
    }
    match crate::text::find_char(s, c, 0) {
        Some(i) => slice_vec(s, 0, i),
        None => slice_vec(s, 0, s.len()),
    }
}

/// The text after the first `c`, or all of it (`split_once(c)`'s second half).
pub open spec fn after_first(s: Seq<char>, c: char) -> Seq<char> {
    match index_of(s, c) {
        Some(i) => s.subrange(i + 1, s.len() as int),
        None => s,
    }
}

pub fn after_first_exec(s: &[char], c: char) -> (r: Vec<char>)
    ensures
        r@ == after_first(s@, c),
{
    proof {
        lemma_find_char_bounds(s@, c, 0);
    }
    let n = s.len();
    match crate::text::find_char(s, c, 0) {
        Some(i) => slice_vec(s, i + 1, n),
        None => slice_vec(s, 0, n),
    }
}

/// Decodes `data[start..end]` leniently.
pub fn lossy_range(data: &[u8], start: usize, end: usize) -> (r: Vec<char>)
    requires
        start <= end <= data@.len(),
    ensures
        r@ == lossy_utf8(data@.subrange(start as int, end as int)),
{
    let v = slice_vec(data, start, end);
    utf8_lossy(v.as_slice())
}

/// A device with no MAC column.
pub open spec fn dev(protocol: Seq<char>, version: u32, ip: IpAddr, device_type: Seq<char>, serial: Seq<char>) -> DeviceView {
    DeviceView { protocol, version, ip, mac: Seq::empty(), device_type, serial }
}

/// A device from character vectors; `protocol` is a literal.
pub fn make_device(protocol: &str, version: u32, ip: IpAddr, mac: &[char], device_type: &[char], serial: &[char]) -> (d: Device)
    ensures
        d@ == (DeviceView { protocol: protocol@, version, ip, mac: mac@, device_type: device_type@, serial: serial@ }),
{
    Device::new(owned(protocol), version, ip, string_from_chars(mac), string_from_chars(device_type), string_from_chars(serial))
}

/// First index at or after `from` where `p` occurs in `s`.
pub open spec fn find_sub(s: Seq<char>, p: Seq<char>, from: int) -> Option<int>
    decreases s.len() - from,
{
    if from < 0 || from + p.len() > s.len() {
        None
    } else if p.len() == 0 || s.subrange(from, from + p.len()) == p {
        Some(from)
    } else {
        find_sub(s, p, from + 1)
    }
}

pub proof fn lemma_find_sub_bounds(s: Seq<char>, p: Seq<char>, from: int)
    ensures
        find_sub(s, p, from) matches Some(i) ==> from <= i && i + p.len() <= s.len() && 0 <= i
            && s.subrange(i, i + p.len()) =~= p,
    decreases s.len() - from,
{
    if !(from < 0 || from + p.len() > s.len()) && p.len() != 0 && s.subrange(from, from + p.len()) != p {
        lemma_find_sub_bounds(s, p, from + 1);
    }
}

pub fn find_sub_exec(s: &[char], p: &[char], from: usize) -> (r: Option<usize>)
    ensures
        match r {
            Some(i) => find_sub(s@, p@, from as int) == Some(i as int),
            None => find_sub(s@, p@, from as int) is None,
        },
    decreases s@.len() - from,
{
    if from > s.len() || p.len() > s.len() - from {
        None
    } else if p.len() == 0 || chars_eq_at(s, from, p) {
        Some(from)
    } else {
        find_sub_exec(s, p, from + 1)
    }
}

/// First index at or after `i` that is not a space (or the length).
pub open spec fn skip_spaces(s: Seq<char>, i: int) -> int
    decreases s.len() - i,
{
    if i < 0 || i >= s.len() || s[i] != ' ' {
        i
    } else {
        skip_spaces(s, i + 1)
    }
}

pub proof fn lemma_skip_spaces(s: Seq<char>, i: int)
    requires
        0 <= i,
    ensures
        i <= skip_spaces(s, i),
        i <= s.len() ==> skip_spaces(s, i) <= s.len(),
    decreases s.len() - i,
{
    if i < s.len() && s[i] == ' ' {
        lemma_skip_spaces(s, i + 1);
    }
}

pub fn skip_spaces_exec(s: &[char], i: usize) -> (r: usize)
    requires
        i <= s@.len(),
    ensures
        r as int == skip_spaces(s@, i as int),
        i <= r <= s@.len(),
    decreases s@.len() - i,
{
    if i >= s.len() || s[i] != ' ' {
        i
    } else {
        skip_spaces_exec(s, i + 1)
    }
}

/// The text with `prefix` removed when it starts with it.
pub open spec fn strip_prefix(s: Seq<char>, prefix: Seq<char>) -> Seq<char> {
    if prefix.len() <= s.len() && s.subrange(0, prefix.len() as int) == prefix {
        s.subrange(prefix.len() as int, s.len() as int)
    } else {
        s
    }
}

pub fn strip_prefix_exec(s: &[char], prefix: &str) -> (r: Vec<char>)
    ensures
        r@ == strip_prefix(s@, prefix@),
{
    let p = crate::text::str_chars(prefix);
    if chars_eq_at(s, 0, p.as_slice()) {
        slice_vec(s, p.len(), s.len())
    } else {
        slice_vec(s, 0, s.len())
    }
}

/// The characters of a literal.
pub fn lit(s: &str) -> (r: Vec<char>)
    ensures
        r@ == s@,
{
    crate::text::str_chars(s)
}

// ----------------------------------------------------------------------------
// XML fields.
// ----------------------------------------------------------------------------

pub open spec fn open_tag(tag: Seq<char>) -> Seq<char> {
    seq!['<'] + tag + seq!['>']
}

pub open spec fn close_tag(tag: Seq<char>) -> Seq<char> {
    seq!['<', '/'] + tag + seq!['>']
}

/// The first `<tag>` at or after `cursor` whose text (up to the next `<`) is
/// followed by `</tag>`; a `<tag>` with no `<` after it ends the search.
pub open spec fn xml_field_from(x: Seq<char>, tag: Seq<char>, cursor: int) -> Option<Seq<char>>
    decreases x.len() - cursor,
{
    match find_sub(x, open_tag(tag), cursor) {
        None => None,
        Some(off) => {
            let start = off + tag.len() + 2;
            match find_char_from(x, '<', start) {
                None => None,
                Some(end) => if end + tag.len() + 3 <= x.len() && x.subrange(end, end + tag.len() + 3) == close_tag(tag) {
                    Some(x.subrange(start, end))
                } else if start <= cursor {
                    None
                } else {
                    xml_field_from(x, tag, start)
                },
            }
        },
    }
}

pub open spec fn xml_field(x: Seq<char>, tag: Seq<char>) -> Option<Seq<char>> {
    xml_field_from(x, tag, 0)
}

proof fn lemma_find_char_from_bounds(t: Seq<char>, c: char, i: int)
    requires
        0 <= i,
    ensures
        find_char_from(t, c, i) matches Some(p) ==> i <= p < t.len() && t[p] == c,
    decreases t.len() - i,
{
    if i < t.len() && t[i] != c {
        lemma_find_char_from_bounds(t, c, i + 1);
    }
}

/// The text of the first well-formed `<tag>text</tag>` (see `xml_field_from`).
pub fn extract_xml_string(x: &[char], tag: &str) -> (r: Option<Vec<char>>)
    ensures
        match r {
            Some(v) => xml_field(x@, tag@) == Some(v@),
            None => xml_field(x@, tag@) is None,
        },
{
    let t = str_chars(tag);
    let mut open: Vec<char> = Vec::new();
    open.push('<');
    let mut t1 = str_chars(tag);
    open.append(&mut t1);
    open.push('>');
    let mut close: Vec<char> = Vec::new();
    close.push('<');
    close.push('/');
    let mut t2 = str_chars(tag);
    close.append(&mut t2);
    close.push('>');
    assert(open@ =~= open_tag(tag@));
    assert(close@ =~= close_tag(tag@));
    let n = x.len();
    let mut cursor: usize = 0;
    loop
        invariant
            cursor <= n,
            n == x@.len(),
            open@ == open_tag(tag@),
            close@ == close_tag(tag@),
            t@ == tag@,
            xml_field(x@, tag@) == xml_field_from(x@, tag@, cursor as int),
        decreases n - cursor,
    {
        proof {
            lemma_find_sub_bounds(x@, open_tag(tag@), cursor as int);
        }
        match find_sub_exec(x, open.as_slice(), cursor) {
            None => {
                return None;
            },
            Some(off) => {
                let start = off + t.len() + 2;
                proof {
                    lemma_find_char_from_bounds(x@, '<', start as int);
                }
                match find_char(x, '<', start) {
                    None => {
                        return None;
                    },
                    Some(end) => {
                        if close.len() <= n - end && chars_eq_at(x, end, close.as_slice()) {
                            assert(x@.subrange(end as int, end + tag@.len() + 3) == close_tag(tag@));
                            return Some(slice_vec(x, start, end));
                        }
                        proof {
                            if close.len() <= n - end {
                                assert(x@.subrange(end as int, end + tag@.len() + 3) != close_tag(tag@));
                            }
                        }
                        if start <= cursor {
                            return None;
                        }
                        cursor = start;
                    },
                }
            },
        }
    }
}


// ----------------------------------------------------------------------------
// `str::split` on one character.
// ----------------------------------------------------------------------------

/// The pieces from position `p` on, split at each `c` (`str::split`: one
/// more piece than separators, empty pieces kept).
pub open spec fn split_from(s: Seq<char>, c: char, p: int) -> Seq<Seq<char>>
    decreases s.len() - p + 1,
{
    if p < 0 || p > s.len() {
        Seq::empty()
    } else {
        match find_char_from(s, c, p) {
            Some(k) => if k < p || k >= s.len() {
                Seq::empty()
            } else {
                seq![s.subrange(p, k)] + split_from(s, c, k + 1)
            },
            None => seq![s.subrange(p, s.len() as int)],
        }
    }
}

pub open spec fn split_on(s: Seq<char>, c: char) -> Seq<Seq<char>> {
    split_from(s, c, 0)
}

pub proof fn lemma_find_char_from_range(t: Seq<char>, c: char, i: int)
    requires
        0 <= i,
    ensures
        find_char_from(t, c, i) matches Some(p) ==> i <= p < t.len() && t[p] == c,
    decreases t.len() - i,
{
    if i < t.len() && t[i] != c {
        lemma_find_char_from_range(t, c, i + 1);
    }
}

/// Splitting always gives at least one piece.
pub proof fn lemma_split_nonempty(s: Seq<char>, c: char, p: int)
    requires
        0 <= p <= s.len(),
    ensures
        split_from(s, c, p).len() >= 1,
{
    lemma_find_char_from_range(s, c, p);
}

/// Splits at each `c`.
pub fn split_exec(s: &[char], c: char) -> (parts: Vec<Vec<char>>)
    ensures
        char_views(parts@) == split_on(s@, c),
{
    let n = s.len();
    let mut parts: Vec<Vec<char>> = Vec::new();
    let mut p: usize = 0;
    let mut more = true;
    while more
        invariant
            p <= n,
            n == s@.len(),
            more ==> split_on(s@, c) == char_views(parts@) + split_from(s@, c, p as int),
            !more ==> split_on(s@, c) == char_views(parts@),
        decreases n - p + (if more { 1int } else { 0int }),
    {
        proof {
            lemma_find_char_from_range(s@, c, p as int);
        }
        let ghost before = parts@;
        match find_char(s, c, p) {
            Some(k) => {
                parts.push(slice_vec(s, p, k));
                assert(char_views(parts@) =~= char_views(before).push(s@.subrange(p as int, k as int)));
                assert(split_from(s@, c, p as int) =~= seq![s@.subrange(p as int, k as int)] + split_from(s@, c, k + 1));
                p = k + 1;
            },
            None => {
                parts.push(slice_vec(s, p, n));
                assert(char_views(parts@) =~= char_views(before).push(s@.subrange(p as int, n as int)));
                more = false;
            },
        }
    }
    parts
}
} // verus!
