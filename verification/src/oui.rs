//! Vendor names by MAC prefix (OUI), from the IEEE `oui.txt` listing.
//!
//! The table is keyed by the 24-bit prefix `a << 16 | b << 8 | c` of the
//! MAC's first three octets.

use vstd::prelude::*;
use std::collections::HashMap;
use crate::ports::{hex_value, hex_digits_value, all_hex};
use crate::protocols::common::{find_sub, find_sub_exec, lemma_find_sub_bounds};
use crate::text::{line_seqs, std_lines, std_lines_from, str_chars, string_from_chars, slice_vec, trim, trim_exec,
    trim_end, trim_end_exec};

verus! {

broadcast use vstd::std_specs::hash::group_hash_axioms;

/// The marker of the 24-bit lines.
pub open spec fn base16_marker() -> Seq<char> {
    seq!['(', 'b', 'a', 's', 'e', ' ', '1', '6', ')']
}

/// The entry a line gives, if any: a line (trailing whitespace removed)
/// with the marker at position 6 or later, only whitespace between the
/// first six characters and the marker, six hex digits first, and a
/// non-empty vendor (the trimmed text after the marker).
pub open spec fn oui_entry(line: Seq<char>) -> Option<(u32, Seq<char>)> {
    let t = trim_end(line);
    match find_sub(t, base16_marker(), 0) {
        None => None,
        Some(m) => {
            let prefix = t.subrange(0, 6);
            let vendor = trim(t.subrange(m + 9, t.len() as int));
            if m < 6 || trim(t.subrange(6, m)).len() != 0 || !all_hex(prefix) || vendor.len() == 0 {
                None
            } else {
                Some((hex_digits_value(prefix) as u32, vendor))
            }
        },
    }
}

/// The table the lines give, later lines overriding earlier ones.
pub open spec fn oui_table(lines: Seq<Seq<char>>) -> Map<u32, Seq<char>>
    decreases lines.len(),
{
    if lines.len() == 0 {
        Map::empty()
    } else {
        let m = oui_table(lines.drop_last());
        match oui_entry(lines.last()) {
            Some((k, v)) => m.insert(k, v),
            None => m,
        }
    }
}

/// The table of an `oui.txt` text.
pub open spec fn oui_file_table(text: Seq<char>) -> Map<u32, Seq<char>> {
    oui_table(std_lines_from(text, 0))
}

/// A table whose vendors read as the given texts.
pub open spec fn table_matches(m: Map<u32, String>, t: Map<u32, Seq<char>>) -> bool {
    &&& m.dom() == t.dom()
    &&& forall|k: u32| #[trigger] m.dom().contains(k) ==> m[k]@ == t[k]
}

fn oui_entry_exec(line: &[char]) -> (r: Option<(u32, Vec<char>)>)
    ensures
        match r {
            Some((k, v)) => oui_entry(line@) == Some((k, v@)),
            None => oui_entry(line@) is None,
        },
{
    let t = trim_end_exec(line);
    let marker = str_chars("(base 16)");
    proof {
        reveal_strlit("(base 16)");
        assert(marker@ =~= base16_marker());
        lemma_find_sub_bounds(t@, base16_marker(), 0);
    }
    let n = t.len();
    match find_sub_exec(t.as_slice(), marker.as_slice(), 0) {
        None => None,
        Some(m) => {
            if m < 6 {
                return None;
            }
            let mid = slice_vec(t.as_slice(), 6, m);
            let mid_t = trim_exec(mid.as_slice());
            if mid_t.len() != 0 {
                return None;
            }
            let mut v: u32 = 0;
            let mut i: usize = 0;
            while i < 6
                invariant
                    i <= 6,
                    6 <= m,
                    m + 9 <= n,
                    n == t@.len(),
                    t@ == trim_end(line@),
                    find_sub(t@, base16_marker(), 0) == Some(m as int),
                    all_hex(t@.subrange(0, i as int)),
                    v == hex_digits_value(t@.subrange(0, i as int)),
                    v < pow16(i as int),
                decreases 6 - i,
            {
                let c = t[i];
                let h: u32 = if '0' <= c && c <= '9' {
                    c as u32 - 48
                } else if 'a' <= c && c <= 'f' {
                    c as u32 - 87
                } else if 'A' <= c && c <= 'F' {
                    c as u32 - 55
                } else {
                    proof {
                        assert(t@.subrange(0, 6)[i as int] == c);
                    }
                    return None;
                };
                proof {
                    assert(t@.subrange(0, i + 1).drop_last() =~= t@.subrange(0, i as int));
                    assert(t@.subrange(0, i + 1).last() == c);
                    assert(all_hex(t@.subrange(0, i + 1))) by {
                        assert forall|j: int| 0 <= j < i + 1 implies hex_value(#[trigger] t@.subrange(0, i + 1)[j]) >= 0 by {
                            if j < i {
                                assert(t@.subrange(0, i + 1)[j] == t@.subrange(0, i as int)[j]);
                            }
                        }
                    }
                }
                proof {
                    lemma_pow16(i as int);
                }
                v = v * 16 + h;
                i += 1;
            }
            let tail = slice_vec(t.as_slice(), m + 9, n);
            let vendor = trim_exec(tail.as_slice());
            if vendor.len() == 0 {
                return None;
            }
            Some((v, vendor))
        },
    }
}

proof fn lemma_pow16(i: int)
    requires
        0 <= i <= 5,
    ensures
        pow16(i) <= 0x100000,
        pow16(i + 1) == 16 * pow16(i),
{
    reveal_with_fuel(pow16, 7);
    if i == 0 {
    } else if i == 1 {
    } else if i == 2 {
    } else if i == 3 {
    } else if i == 4 {
    } else {
    }
}

pub open spec fn pow16(i: int) -> int
    decreases i,
{
    if i <= 0 {
        1
    } else {
        16 * pow16(i - 1)
    }
}

/// Parses an `oui.txt` listing (lines like `847B57     (base 16)\tTP-Link
/// Systems Inc.`); `None` when it holds no such line.
pub fn parse_oui_file(text: &str) -> (r: Option<HashMap<u32, String>>)
    ensures
        match r {
            Some(m) => table_matches(m@, oui_file_table(text@)) && oui_file_table(text@).dom().len() > 0,
            None => oui_file_table(text@) == Map::<u32, Seq<char>>::empty(),
        },
{
    let t = str_chars(text);
    let lines = std_lines(t.as_slice());
    let ghost ls = line_seqs(lines@);
    let mut map: HashMap<u32, String> = HashMap::new();
    let mut i: usize = 0;
    while i < lines.len()
        invariant
            i <= lines@.len(),
            ls == line_seqs(lines@),
            ls == std_lines_from(t@, 0),
            t@ == text@,
            table_matches(map@, oui_table(ls.subrange(0, i as int))),
        decreases lines@.len() - i,
    {
        proof {
            assert(ls.subrange(0, i + 1).drop_last() =~= ls.subrange(0, i as int));
            assert(ls.subrange(0, i + 1).last() == lines@[i as int]@);
        }
        match oui_entry_exec(lines[i].as_slice()) {
            Some((k, v)) => {
                let s = string_from_chars(v.as_slice());
                map.insert(k, s);
            },
            None => {},
        }
        i += 1;
    }
    proof {
        assert(ls.subrange(0, lines@.len() as int) =~= ls);
    }
    if map.len() == 0 {
        proof {
            assert(oui_file_table(text@).dom() =~= Set::<u32>::empty());
            assert(oui_file_table(text@) =~= Map::<u32, Seq<char>>::empty());
        }
        None
    } else {
        Some(map)
    }
}

/// The table key of a MAC: its first three octets as a 24-bit number.
pub open spec fn oui_key(mac: [u8; 6]) -> u32 {
    (mac[0] as int * 65536 + mac[1] as int * 256 + mac[2] as int) as u32
}

/// The vendor of a MAC's prefix in a parsed table.
pub fn lookup(table: &HashMap<u32, String>, mac: [u8; 6]) -> (r: Option<String>)
    ensures
        match r {
            Some(v) => table@.contains_key(oui_key(mac)) && v == table@[oui_key(mac)],
            None => !table@.contains_key(oui_key(mac)),
        },
{
    let key: u32 = mac[0] as u32 * 65536 + mac[1] as u32 * 256 + mac[2] as u32;
    match table.get(&key) {
        Some(v) => Some(v.clone()),
        None => None,
    }
}

/// A serial with its vendor added in brackets: `<serial> (<vendor>)`.
pub fn with_vendor(serial: &str, vendor: &str) -> (r: String)
    ensures
        r@ == serial@ + seq![' ', '('] + vendor@ + seq![')'],
{
    let mut t = str_chars(serial);
    t.push(' ');
    t.push('(');
    let mut v = str_chars(vendor);
    t.append(&mut v);
    t.push(')');
    string_from_chars(t.as_slice())
}

/// A vendor is found by the MAC's first three octets alone: two MACs that
/// share them have the same table key, so `lookup` answers the same for both.
pub proof fn law_lookup_by_prefix(m1: [u8; 6], m2: [u8; 6])
    requires
        m1[0] == m2[0] && m1[1] == m2[1] && m1[2] == m2[2],
    ensures
        oui_key(m1) == oui_key(m2),
{
}

} // verus!
