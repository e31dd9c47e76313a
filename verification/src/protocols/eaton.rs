//! Eaton UPS network cards (UDP 4679): the probe `<SCAN_REQUEST/>`,
//! answered by an XML document of `<OBJECT name="...">value</OBJECT>` entries.

use vstd::prelude::*;
use crate::devices::{Device, DeviceView, views};
use crate::ip::IpAddr;
use crate::protocols::common::{find_sub, find_sub_exec, lemma_find_sub_bounds, chars_eq_at, make_device, lit,
    lemma_find_char_from_range};
use crate::text::{find_char, find_char_from, lossy_utf8, utf8_lossy, slice_vec, str_chars};

verus! {

pub const PORT: u16 = 4679;

pub fn build_probe() -> (p: Vec<u8>)
    ensures
        p@ == seq![0x3cu8, 0x53, 0x43, 0x41, 0x4e, 0x5f, 0x52, 0x45, 0x51, 0x55, 0x45, 0x53, 0x54, 0x2f, 0x3e],
{
    let p: Vec<u8> = vec![0x3cu8, 0x53, 0x43, 0x41, 0x4e, 0x5f, 0x52, 0x45, 0x51, 0x55, 0x45, 0x53, 0x54, 0x2f, 0x3e];
    assert(p@ =~= seq![0x3cu8, 0x53, 0x43, 0x41, 0x4e, 0x5f, 0x52, 0x45, 0x51, 0x55, 0x45, 0x53, 0x54, 0x2f, 0x3e]);
    p
}

/// First index at or after `i` that is not a space (or the length).
pub open spec fn spaces_end(x: Seq<char>, i: int) -> int
    decreases x.len() - i,
{
    if i < 0 || i >= x.len() || x[i] != ' ' {
        i
    } else {
        spaces_end(x, i + 1)
    }
}

/// Whether `p` occurs in `x` at `i`.
pub open spec fn occurs_at(x: Seq<char>, i: int, p: Seq<char>) -> bool {
    0 <= i && i + p.len() <= x.len() && x.subrange(i, i + p.len()) == p
}

/// The value of the entry starting at `start` (an `<OBJECT`), when it reads
/// `<OBJECT`, one or more spaces, `name`, spaces, `=`, spaces, `"`, the
/// wanted name, `">`, then text without `<` up to `</OBJECT>`.
pub open spec fn object_value(x: Seq<char>, start: int, name: Seq<char>) -> Option<Seq<char>> {
    let i0 = start + 7;
    let i1 = spaces_end(x, i0);
    let i2 = spaces_end(x, i1 + 4);
    let i3 = spaces_end(x, i2 + 1);
    let i5 = i3 + 1 + name.len();
    let i6 = i5 + 2;
    let end = match find_char_from(x, '<', i6) {
        Some(e) => e,
        None => x.len() as int,
    };
    if i1 == i0 || !occurs_at(x, i1, seq!['n', 'a', 'm', 'e']) || !occurs_at(x, i2, seq!['='])
        || !occurs_at(x, i3, seq!['"']) || !occurs_at(x, i3 + 1, name) || !occurs_at(x, i5, seq!['"', '>'])
        || !occurs_at(x, end, "</OBJECT>"@) {
        None
    } else {
        Some(x.subrange(i6, end))
    }
}

/// The value of the first `<OBJECT` at or after `cursor` whose entry matches.
pub open spec fn object_entry_from(x: Seq<char>, name: Seq<char>, cursor: int) -> Option<Seq<char>>
    decreases x.len() - cursor,
{
    match find_sub(x, "<OBJECT"@, cursor) {
        None => None,
        Some(start) => match object_value(x, start, name) {
            Some(v) => Some(v),
            None => if start < cursor || start >= x.len() {
                None
            } else {
                object_entry_from(x, name, start + 1)
            },
        },
    }
}

pub open spec fn object_entry(x: Seq<char>, name: Seq<char>) -> Option<Seq<char>> {
    object_entry_from(x, name, 0)
}

proof fn lemma_spaces_end(x: Seq<char>, i: int)
    requires
        0 <= i <= x.len(),
    ensures
        i <= spaces_end(x, i) <= x.len(),
    decreases x.len() - i,
{
    if i < x.len() && x[i] == ' ' {
        lemma_spaces_end(x, i + 1);
    }
}

fn spaces_end_exec(x: &[char], i: usize) -> (r: usize)
    requires
        i <= x@.len(),
    ensures
        r as int == spaces_end(x@, i as int),
        i <= r <= x@.len(),
    decreases x@.len() - i,
{
    if i >= x.len() || x[i] != ' ' {
        i
    } else {
        spaces_end_exec(x, i + 1)
    }
}

fn occurs_at_exec(x: &[char], i: usize, p: &[char]) -> (r: bool)
    ensures
        r == occurs_at(x@, i as int, p@),
{
    if i > x.len() || p.len() > x.len() - i {
        return false;
    }
    chars_eq_at(x, i, p)
}

fn object_value_exec(x: &[char], start: usize, name: &[char]) -> (r: Option<Vec<char>>)
    requires
        start + 7 <= x@.len(),
    ensures
        match r {
            Some(v) => object_value(x@, start as int, name@) == Some(v@),
            None => object_value(x@, start as int, name@) is None,
        },
{
    let n = x.len();
    let i0 = start + 7;
    let i1 = spaces_end_exec(x, i0);
    if i1 == i0 || !occurs_at_exec(x, i1, lit("name").as_slice()) {
        proof {
            reveal_strlit("name");
            assert(seq!['n', 'a', 'm', 'e'] =~= "name"@);
        }
        return None;
    }
    proof {
        reveal_strlit("name");
        assert(seq!['n', 'a', 'm', 'e'] =~= "name"@);
    }
    let i2 = spaces_end_exec(x, i1 + 4);
    if !occurs_at_exec(x, i2, lit("=").as_slice()) {
        proof {
            reveal_strlit("=");
            assert(seq!['='] =~= "="@);
        }
        return None;
    }
    proof {
        reveal_strlit("=");
        assert(seq!['='] =~= "="@);
    }
    let i3 = spaces_end_exec(x, i2 + 1);
    if !occurs_at_exec(x, i3, lit("\"").as_slice()) {
        proof {
            reveal_strlit("\"");
            assert(seq!['"'] =~= "\""@);
        }
        return None;
    }
    proof {
        reveal_strlit("\"");
        assert(seq!['"'] =~= "\""@);
    }
    if !occurs_at_exec(x, i3 + 1, name) {
        return None;
    }
    let i5 = i3 + 1 + name.len();
    if !occurs_at_exec(x, i5, lit("\">").as_slice()) {
        proof {
            reveal_strlit("\">");
            assert(seq!['"', '>'] =~= "\">"@);
        }
        return None;
    }
    proof {
        reveal_strlit("\">");
        assert(seq!['"', '>'] =~= "\">"@);
    }
    let i6 = i5 + 2;
    proof {
        lemma_find_char_from_range(x@, '<', i6 as int);
    }
    let end = match find_char(x, '<', i6) {
        Some(e) => e,
        None => n,
    };
    if !occurs_at_exec(x, end, lit("</OBJECT>").as_slice()) {
        return None;
    }
    Some(slice_vec(x, i6, end))
}

/// The value of the first matching `<OBJECT name="...">` entry.
pub fn extract_object_entry(x: &[char], name: &str) -> (r: Option<Vec<char>>)
    ensures
        match r {
            Some(v) => object_entry(x@, name@) == Some(v@),
            None => object_entry(x@, name@) is None,
        },
{
    let nm = str_chars(name);
    let obj = lit("<OBJECT");
    proof {
        reveal_strlit("<OBJECT");
    }
    let n = x.len();
    let mut cursor: usize = 0;
    loop
        invariant
            cursor <= n,
            n == x@.len(),
            nm@ == name@,
            obj@ == "<OBJECT"@,
            obj@.len() == 7,
            object_entry(x@, name@) == object_entry_from(x@, name@, cursor as int),
        decreases n - cursor,
    {
        proof {
            lemma_find_sub_bounds(x@, "<OBJECT"@, cursor as int);
        }
        match find_sub_exec(x, obj.as_slice(), cursor) {
            None => {
                return None;
            },
            Some(start) => {
                match object_value_exec(x, start, nm.as_slice()) {
                    Some(v) => {
                        return Some(v);
                    },
                    None => {
                        if start < cursor || start >= n {
                            return None;
                        }
                        cursor = start + 1;
                    },
                }
            },
        }
    }
}

/// The device of an answer from `from` (decoded leniently): the model is
/// `System.Description`, else `UPS.PowerSummary.iProduct` (no device
/// without one); the serial `UPS.PowerSummary.iSerialNumber`, else `Unknown`.
pub open spec fn eaton_devices(from: IpAddr, x: Seq<char>) -> Seq<DeviceView> {
    let model = match object_entry(x, "System.Description"@) {
        Some(m) => Some(m),
        None => object_entry(x, "UPS.PowerSummary.iProduct"@),
    };
    match model {
        None => Seq::empty(),
        Some(m) => seq![DeviceView {
            protocol: "Eaton"@,
            version: 1,
            ip: from,
            mac: Seq::empty(),
            device_type: m,
            serial: match object_entry(x, "UPS.PowerSummary.iSerialNumber"@) {
                Some(s) => s,
                None => "Unknown"@,
            },
        }],
    }
}

pub fn parse(from: IpAddr, data: &[u8]) -> (devs: Vec<Device>)
    ensures
        views(devs@) == eaton_devices(from, lossy_utf8(data@)),
{
    let mut out: Vec<Device> = Vec::new();
    let x = utf8_lossy(data);
    let xs = x.as_slice();
    let model = match extract_object_entry(xs, "System.Description") {
        Some(m) => Some(m),
        None => extract_object_entry(xs, "UPS.PowerSummary.iProduct"),
    };
    let m = match model {
        Some(m) => m,
        None => {
            return out;
        },
    };
    let serial = match extract_object_entry(xs, "UPS.PowerSummary.iSerialNumber") {
        Some(s) => s,
        None => lit("Unknown"),
    };
    let no_mac: Vec<char> = Vec::new();
    out.push(make_device("Eaton", 1, from, no_mac.as_slice(), m.as_slice(), serial.as_slice()));
    assert(views(out@) =~= eaton_devices(from, lossy_utf8(data@)));
    out
}

} // verus!
