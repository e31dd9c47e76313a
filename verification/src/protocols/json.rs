//! Lenient extraction of `"key": "value"` strings and `"key": {...}` objects
//! from JSON text, as the Dahua replies need.

use vstd::prelude::*;
use crate::text::{find_char_from, find_char, slice_vec};
use crate::protocols::common::{find_sub, find_sub_exec, lemma_find_sub_bounds, skip_spaces, skip_spaces_exec, lemma_skip_spaces};

verus! {

/// `"key"` with its quotes.
pub open spec fn quoted(key: Seq<char>) -> Seq<char> {
    seq!['"'] + key + seq!['"']
}

/// At the candidate `off` (a match of the quoted key), the value when a `:`
/// follows (spaces allowed around it) and then, for a string, `"...“` up to
/// the next quote, or for an object, `{...}` up to the first `}`.
pub open spec fn value_after(s: Seq<char>, kp: Seq<char>, off: int, object: bool) -> Option<Seq<char>> {
    let i = skip_spaces(s, off + kp.len());
    if 0 <= i < s.len() && s[i] == ':' {
        let j = skip_spaces(s, i + 1);
        if 0 <= j < s.len() && s[j] == (if object { '{' } else { '"' }) {
            if object {
                match find_char_from(s, '}', j) {
                    Some(e) => Some(s.subrange(j, e + 1)),
                    None => None,
                }
            } else {
                match find_char_from(s, '"', j + 1) {
                    Some(e) => Some(s.subrange(j + 1, e)),
                    None => None,
                }
            }
        } else {
            None
        }
    } else {
        None
    }
}

/// The first match of the quoted key at or after `cursor` that is followed
/// by a value of the wanted kind.
pub open spec fn json_value_from(s: Seq<char>, kp: Seq<char>, cursor: int, object: bool) -> Option<Seq<char>>
    decreases s.len() - cursor,
{
    match find_sub(s, kp, cursor) {
        None => None,
        Some(off) => if off < cursor || off >= s.len() {
            None
        } else {
            match value_after(s, kp, off, object) {
                Some(v) => Some(v),
                None => json_value_from(s, kp, off + 1, object),
            }
        },
    }
}

/// The string value of the first `"key": "..."` in the text.
pub open spec fn json_string(s: Seq<char>, key: Seq<char>) -> Option<Seq<char>> {
    json_value_from(s, quoted(key), 0, false)
}

/// The first `"key": {...}` object (braces included, up to the first `}`).
pub open spec fn json_section(s: Seq<char>, key: Seq<char>) -> Option<Seq<char>> {
    json_value_from(s, quoted(key), 0, true)
}

proof fn lemma_find_char_from_bounds(s: Seq<char>, c: char, from: int)
    requires
        0 <= from,
    ensures
        find_char_from(s, c, from) matches Some(i) ==> from <= i < s.len(),
    decreases s.len() - from,
{
    if from < s.len() && s[from] != c {
        lemma_find_char_from_bounds(s, c, from + 1);
    }
}

fn value_after_exec(s: &[char], kp: &[char], off: usize, object: bool) -> (r: Option<Vec<char>>)
    requires
        off + kp@.len() <= s@.len(),
    ensures
        match r {
            Some(v) => value_after(s@, kp@, off as int, object) == Some(v@),
            None => value_after(s@, kp@, off as int, object) is None,
        },
{
    let n = s.len();
    let kl = kp.len();
    assert(off + kl <= n);
    let i = skip_spaces_exec(s, off + kl);
    if i < s.len() && s[i] == ':' {
        let j = skip_spaces_exec(s, i + 1);
        let opener = if object { '{' } else { '"' };
        if j < s.len() && s[j] == opener {
            if object {
                proof {
                    lemma_find_char_from_bounds(s@, '}', j as int);
                }
                match find_char(s, '}', j) {
                    Some(e) => Some(slice_vec(s, j, e + 1)),
                    None => None,
                }
            } else {
                proof {
                    lemma_find_char_from_bounds(s@, '"', j + 1);
                }
                match find_char(s, '"', j + 1) {
                    Some(e) => Some(slice_vec(s, j + 1, e)),
                    None => None,
                }
            }
        } else {
            None
        }
    } else {
        None
    }
}

fn json_value_from_exec(s: &[char], kp: &[char], cursor: usize, object: bool) -> (r: Option<Vec<char>>)
    ensures
        match r {
            Some(v) => json_value_from(s@, kp@, cursor as int, object) == Some(v@),
            None => json_value_from(s@, kp@, cursor as int, object) is None,
        },
    decreases s@.len() - cursor,
{
    proof {
        lemma_find_sub_bounds(s@, kp@, cursor as int);
    }
    match find_sub_exec(s, kp, cursor) {
        None => None,
        Some(off) => {
            if off < cursor || off >= s.len() {
                None
            } else {
                match value_after_exec(s, kp, off, object) {
                    Some(v) => Some(v),
                    None => json_value_from_exec(s, kp, off + 1, object),
                }
            }
        },
    }
}

fn quoted_exec(key: &str) -> (r: Vec<char>)
    ensures
        r@ == quoted(key@),
{
    let k = crate::text::str_chars(key);
    let mut r: Vec<char> = Vec::new();
    r.push('"');
    let mut i: usize = 0;
    while i < k.len()
        invariant
            i <= k@.len(),
            r@ == seq!['"'] + k@.subrange(0, i as int),
        decreases k@.len() - i,
    {
        r.push(k[i]);
        i += 1;
        assert(r@ =~= seq!['"'] + k@.subrange(0, i as int));
    }
    r.push('"');
    assert(k@.subrange(0, k@.len() as int) =~= k@);
    assert(r@ =~= quoted(key@));
    r
}

pub fn extract_json_string(key: &str, s: &[char]) -> (r: Option<Vec<char>>)
    ensures
        match r {
            Some(v) => json_string(s@, key@) == Some(v@),
            None => json_string(s@, key@) is None,
        },
{
    let kp = quoted_exec(key);
    json_value_from_exec(s, kp.as_slice(), 0, false)
}

pub fn extract_json_section(key: &str, s: &[char]) -> (r: Option<Vec<char>>)
    ensures
        match r {
            Some(v) => json_section(s@, key@) == Some(v@),
            None => json_section(s@, key@) is None,
        },
{
    let kp = quoted_exec(key);
    json_value_from_exec(s, kp.as_slice(), 0, true)
}

} // verus!
