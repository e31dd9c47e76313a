//! WS-Discovery (239.255.255.250:3702): a SOAP probe, answered by
//! `ProbeMatch` documents carrying an endpoint address and device types.

use vstd::prelude::*;
use vstd::string::StringSliceAdditionalSpecFns;
use vstd::utf8::encode_utf8;
use crate::devices::{Device, DeviceView, views};
use crate::ip::IpAddr;
use crate::protocols::common::{find_sub, find_sub_exec, lemma_find_sub_bounds, strip_prefix, strip_prefix_exec,
    make_device, lit};
use crate::text::{lossy_utf8, utf8_lossy, slice_vec, str_chars, string_from_chars};

verus! {

pub const PORT: u16 = 3702;

// ----------------------------------------------------------------------------
// Probe.
// ----------------------------------------------------------------------------

/// The probe text before the message id.
pub open spec fn announce_head() -> Seq<char> {
    "<s:Envelope xmlns:s=\"http://www.w3.org/2003/05/soap-envelope\" xmlns:a=\"http://schemas.xmlsoap.org/ws/2004/08/addressing\" xmlns:d=\"http://schemas.xmlsoap.org/ws/2005/04/discovery\" xmlns:w=\"http://schemas.xmlsoap.org/ws/2006/02/devprof\" xmlns:o=\"http://www.onvif.org/ver10/device/wsdl\"><s:Header><a:Action s:mustUnderstand=\"1\">http://schemas.xmlsoap.org/ws/2005/04/discovery/Probe</a:Action><a:MessageID>urn:uuid:"@
}

/// The probe text after the message id.
pub open spec fn announce_tail() -> Seq<char> {
    "</a:MessageID><a:To s:mustUnderstand=\"1\">urn:schemas-xmlsoap-org:ws:2005:04:discovery</a:To><a:ReplyTo><a:Address>http://schemas.xmlsoap.org/ws/2004/08/addressing/role/anonymous</a:Address></a:ReplyTo></s:Header><s:Body><d:Probe><d:Types>w:Device o:Device</d:Types></d:Probe></s:Body></s:Envelope>"@
}

/// The fixed probe sent in ONVIF-verbatim mode.
pub open spec fn verbatim_probe() -> Seq<char> {
    "<s:Envelope xmlns:s=\"http://www.w3.org/2003/05/soap-envelope\" xmlns:a=\"http://schemas.xmlsoap.org/ws/2004/08/addressing\"><s:Header><a:Action s:mustUnderstand=\"1\">http://schemas.xmlsoap.org/ws/2005/04/discovery/Probe</a:Action><a:MessageID>uuid:f686768c-3e60-4f9c-a344-0769929d665c</a:MessageID><a:ReplyTo><a:Address>http://schemas.xmlsoap.org/ws/2004/08/addressing/role/anonymous</a:Address></a:ReplyTo><a:To s:mustUnderstand=\"1\">urn:schemas-xmlsoap-org:ws:2005:04:discovery</a:To></s:Header><s:Body><Probe xmlns=\"http://schemas.xmlsoap.org/ws/2005/04/discovery\"><d:Types xmlns:d=\"http://schemas.xmlsoap.org/ws/2005/04/discovery\" xmlns:dp0=\"http://www.onvif.org/ver10/network/wsdl\">dp0:NetworkVideoTransmitter</d:Types></Probe></s:Body></s:Envelope>"@
}

/// A lower-case hex digit for 0..15.
pub open spec fn lower_hex_digit(n: int) -> char {
    if n < 10 {
        (48 + n) as char
    } else {
        (87 + n) as char
    }
}

/// Bytes as lower-case hex pairs, without separators.
pub open spec fn hex_pairs(b: Seq<u8>) -> Seq<char>
    decreases b.len(),
{
    if b.len() == 0 {
        Seq::empty()
    } else {
        seq![lower_hex_digit(b[0] as int / 16), lower_hex_digit(b[0] as int % 16)] + hex_pairs(b.subrange(1, b.len() as int))
    }
}

/// Sixteen random bytes made a version-4 UUID: the high half of byte 6
/// set to 4 (version), the top two bits of byte 8 to `10` (variant).
pub open spec fn v4_bytes(r: Seq<u8>) -> Seq<u8> {
    r.update(6, (r[6] as int % 16 + 0x40) as u8).update(8, (r[8] as int % 64 + 0x80) as u8)
}

/// The hyphenated text form of sixteen UUID bytes: hex pairs of bytes
/// 0..4, 4..6, 6..8, 8..10 and 10..16, joined by `-`.
pub open spec fn uuid_text(b: Seq<u8>) -> Seq<char> {
    hex_pairs(b.subrange(0, 4)) + seq!['-'] + hex_pairs(b.subrange(4, 6)) + seq!['-'] + hex_pairs(b.subrange(6, 8))
        + seq!['-'] + hex_pairs(b.subrange(8, 10)) + seq!['-'] + hex_pairs(b.subrange(10, 16))
}

/// The text of the version-4 UUID made from sixteen random bytes (uuid
/// crate `Builder::from_random_bytes(..).into_uuid().to_string()`).
/// Trusted: it is `uuid_text(v4_bytes(random))`: the crate sets the version
/// and variant bits as `v4_bytes` does and writes the hyphenated lower-case
/// form, as its `Builder` and `fmt` source show.
#[verifier::external_body]
fn uuid_v4_text(random: [u8; 16]) -> (s: String)
    ensures
        s@ == uuid_text(v4_bytes(random@)),
{
    uuid::Builder::from_random_bytes(random).into_uuid().to_string()
}

/// The probe with a given message id.
pub fn announce_with(id: &str) -> (p: Vec<u8>)
    ensures
        p@ == encode_utf8(announce_head() + id@ + announce_tail()),
{
    let mut t = str_chars("<s:Envelope xmlns:s=\"http://www.w3.org/2003/05/soap-envelope\" xmlns:a=\"http://schemas.xmlsoap.org/ws/2004/08/addressing\" xmlns:d=\"http://schemas.xmlsoap.org/ws/2005/04/discovery\" xmlns:w=\"http://schemas.xmlsoap.org/ws/2006/02/devprof\" xmlns:o=\"http://www.onvif.org/ver10/device/wsdl\"><s:Header><a:Action s:mustUnderstand=\"1\">http://schemas.xmlsoap.org/ws/2005/04/discovery/Probe</a:Action><a:MessageID>urn:uuid:");
    let mut m = str_chars(id);
    let mut e = str_chars("</a:MessageID><a:To s:mustUnderstand=\"1\">urn:schemas-xmlsoap-org:ws:2005:04:discovery</a:To><a:ReplyTo><a:Address>http://schemas.xmlsoap.org/ws/2004/08/addressing/role/anonymous</a:Address></a:ReplyTo></s:Header><s:Body><d:Probe><d:Types>w:Device o:Device</d:Types></d:Probe></s:Body></s:Envelope>");
    t.append(&mut m);
    t.append(&mut e);
    let s = string_from_chars(t.as_slice());
    let b = s.as_str().as_bytes();
    let n = b.len();
    slice_vec(b, 0, n)
}

/// The probe to send: the fixed ONVIF text when `verbatim`, else the
/// standard probe whose message id is the version-4 UUID made from the
/// sixteen random bytes given.
pub fn build_probe(verbatim: bool, random: [u8; 16]) -> (p: Vec<u8>)
    ensures
        verbatim ==> p@ == encode_utf8(verbatim_probe()),
        !verbatim ==> p@ == encode_utf8(announce_head() + uuid_text(v4_bytes(random@)) + announce_tail()),
{
    if verbatim {
        let s = "<s:Envelope xmlns:s=\"http://www.w3.org/2003/05/soap-envelope\" xmlns:a=\"http://schemas.xmlsoap.org/ws/2004/08/addressing\"><s:Header><a:Action s:mustUnderstand=\"1\">http://schemas.xmlsoap.org/ws/2005/04/discovery/Probe</a:Action><a:MessageID>uuid:f686768c-3e60-4f9c-a344-0769929d665c</a:MessageID><a:ReplyTo><a:Address>http://schemas.xmlsoap.org/ws/2004/08/addressing/role/anonymous</a:Address></a:ReplyTo><a:To s:mustUnderstand=\"1\">urn:schemas-xmlsoap-org:ws:2005:04:discovery</a:To></s:Header><s:Body><Probe xmlns=\"http://schemas.xmlsoap.org/ws/2005/04/discovery\"><d:Types xmlns:d=\"http://schemas.xmlsoap.org/ws/2005/04/discovery\" xmlns:dp0=\"http://www.onvif.org/ver10/network/wsdl\">dp0:NetworkVideoTransmitter</d:Types></Probe></s:Body></s:Envelope>";
        let b = s.as_bytes();
        let n = b.len();
        slice_vec(b, 0, n)
    } else {
        let id = uuid_v4_text(random);
        announce_with(id.as_str())
    }
}

// ----------------------------------------------------------------------------
// Answers.
// ----------------------------------------------------------------------------

/// The text of an element from `start` (just after its opening tag): up to
/// the next `<` or `>`, which must be the `</` of a closing tag; never empty.
pub open spec fn content_end(x: Seq<char>, i: int) -> int
    decreases x.len() - i,
{
    if i < 0 || i >= x.len() || x[i] == '<' || x[i] == '>' {
        i
    } else {
        content_end(x, i + 1)
    }
}

pub open spec fn tag_content(x: Seq<char>, start: int) -> Option<Seq<char>> {
    let end = content_end(x, start);
    if end > start && end + 1 < x.len() && x[end] == '<' && x[end + 1] == '/' {
        Some(x.subrange(start, end))
    } else {
        None
    }
}

/// The text of the first element named `tag`, with or without a namespace
/// prefix (`<tag>` or `:tag>`), that has some; the search stops once the
/// prefixed form no longer occurs.
pub open spec fn tag_from(x: Seq<char>, tag: Seq<char>, cursor: int) -> Option<Seq<char>>
    decreases x.len() - cursor,
{
    let plain = seq!['<'] + tag + seq!['>'];
    let pref = seq![':'] + tag + seq!['>'];
    let pick: Option<int> = match (find_sub(x, plain, cursor), find_sub(x, pref, cursor)) {
        (Some(a), Some(b)) => Some(if b < a { b } else { a }),
        (None, Some(b)) => Some(b),
        _ => None,
    };
    match pick {
        None => None,
        Some(off) => match tag_content(x, off + tag.len() + 2) {
            Some(c) => Some(c),
            None => if off < cursor || off >= x.len() {
                None
            } else {
                tag_from(x, tag, off + 1)
            },
        },
    }
}

pub open spec fn tag_text(x: Seq<char>, tag: Seq<char>) -> Option<Seq<char>> {
    tag_from(x, tag, 0)
}

proof fn lemma_content_end(x: Seq<char>, i: int)
    requires
        0 <= i <= x.len(),
    ensures
        i <= content_end(x, i) <= x.len(),
    decreases x.len() - i,
{
    if i < x.len() && x[i] != '<' && x[i] != '>' {
        lemma_content_end(x, i + 1);
    }
}

fn tag_content_exec(x: &[char], start: usize) -> (r: Option<Vec<char>>)
    requires
        start <= x@.len(),
    ensures
        match r {
            Some(v) => tag_content(x@, start as int) == Some(v@),
            None => tag_content(x@, start as int) is None,
        },
{
    let n = x.len();
    let mut end = start;
    proof {
        lemma_content_end(x@, start as int);
    }
    while end < n && x[end] != '<' && x[end] != '>'
        invariant
            start <= end <= n,
            n == x@.len(),
            content_end(x@, end as int) == content_end(x@, start as int),
        decreases n - end,
    {
        end += 1;
    }
    if end > start && end < n && n - end > 1 && x[end] == '<' && x[end + 1] == '/' {
        Some(slice_vec(x, start, end))
    } else {
        None
    }
}

fn extract_tag(x: &[char], tag: &str) -> (r: Option<Vec<char>>)
    ensures
        match r {
            Some(v) => tag_text(x@, tag@) == Some(v@),
            None => tag_text(x@, tag@) is None,
        },
{
    let t = str_chars(tag);
    let mut plain: Vec<char> = Vec::new();
    plain.push('<');
    let mut t1 = str_chars(tag);
    plain.append(&mut t1);
    plain.push('>');
    let mut pref: Vec<char> = Vec::new();
    pref.push(':');
    let mut t2 = str_chars(tag);
    pref.append(&mut t2);
    pref.push('>');
    assert(plain@ =~= seq!['<'] + tag@ + seq!['>']);
    assert(pref@ =~= seq![':'] + tag@ + seq!['>']);
    let n = x.len();
    let mut cursor: usize = 0;
    loop
        invariant
            cursor <= n,
            n == x@.len(),
            t@ == tag@,
            plain@ == seq!['<'] + tag@ + seq!['>'],
            pref@ == seq![':'] + tag@ + seq!['>'],
            tag_text(x@, tag@) == tag_from(x@, tag@, cursor as int),
        decreases n - cursor,
    {
        proof {
            lemma_find_sub_bounds(x@, plain@, cursor as int);
            lemma_find_sub_bounds(x@, pref@, cursor as int);
        }
        let a = find_sub_exec(x, plain.as_slice(), cursor);
        let b = find_sub_exec(x, pref.as_slice(), cursor);
        let off: usize = match (a, b) {
            (Some(a), Some(b)) => if b < a { b } else { a },
            (None, Some(b)) => b,
            _ => {
                return None;
            },
        };
        let start = off + t.len() + 2;
        match tag_content_exec(x, start) {
            Some(c) => {
                return Some(c);
            },
            None => {
                if off < cursor || off >= n {
                    return None;
                }
                cursor = off + 1;
            },
        }
    }
}

pub open spec fn is_ident_start(c: char) -> bool {
    ('A' <= c && c <= 'Z') || ('a' <= c && c <= 'z') || c == '_'
}

pub open spec fn is_ident_char(c: char) -> bool {
    is_ident_start(c) || ('0' <= c && c <= '9') || c == '-'
}

pub open spec fn ident_end(c: Seq<char>, i: int) -> int
    decreases c.len() - i,
{
    if i < 0 || i >= c.len() || !is_ident_char(c[i]) {
        i
    } else {
        ident_end(c, i + 1)
    }
}

/// The text with namespace prefixes removed: a name (letters, digits, `_`,
/// `-`, starting with a letter or `_`) directly followed by `:` is dropped
/// with the colon.
pub open spec fn without_ns(c: Seq<char>, i: int) -> Seq<char>
    decreases c.len() - i,
{
    if i < 0 || i >= c.len() {
        Seq::empty()
    } else if is_ident_start(c[i]) {
        let j = ident_end(c, i);
        if j <= i || j > c.len() {
            Seq::empty()
        } else if j < c.len() && c[j] == ':' {
            without_ns(c, j + 1)
        } else {
            c.subrange(i, j) + without_ns(c, j)
        }
    } else {
        seq![c[i]] + without_ns(c, i + 1)
    }
}

proof fn lemma_ident_end(c: Seq<char>, i: int)
    requires
        0 <= i <= c.len(),
    ensures
        i <= ident_end(c, i) <= c.len(),
        i < c.len() && is_ident_char(c[i]) ==> ident_end(c, i) > i,
    decreases c.len() - i,
{
    if i < c.len() && is_ident_char(c[i]) {
        lemma_ident_end(c, i + 1);
    }
}

fn remove_namespace(c: &[char]) -> (r: Vec<char>)
    ensures
        r@ == without_ns(c@, 0),
{
    let n = c.len();
    let mut out: Vec<char> = Vec::new();
    let mut i: usize = 0;
    while i < n
        invariant
            i <= n,
            n == c@.len(),
            without_ns(c@, 0) == out@ + without_ns(c@, i as int),
        decreases n - i,
    {
        let ch = c[i];
        if ('A' <= ch && ch <= 'Z') || ('a' <= ch && ch <= 'z') || ch == '_' {
            proof {
                lemma_ident_end(c@, i as int);
            }
            let mut j = i;
            while j < n && (('A' <= c[j] && c[j] <= 'Z') || ('a' <= c[j] && c[j] <= 'z') || c[j] == '_'
                || ('0' <= c[j] && c[j] <= '9') || c[j] == '-')
                invariant
                    i <= j <= n,
                    n == c@.len(),
                    ident_end(c@, j as int) == ident_end(c@, i as int),
                decreases n - j,
            {
                j += 1;
            }
            if j < n && c[j] == ':' {
                i = j + 1;
            } else {
                let ghost before = out@;
                let mut k = i;
                while k < j
                    invariant
                        i <= k <= j <= n,
                        n == c@.len(),
                        out@ == before + c@.subrange(i as int, k as int),
                    decreases j - k,
                {
                    out.push(c[k]);
                    k += 1;
                    assert(out@ =~= before + c@.subrange(i as int, k as int));
                }
                assert(without_ns(c@, 0) =~= out@ + without_ns(c@, j as int));
                i = j;
            }
        } else {
            let ghost before = out@;
            out.push(ch);
            assert(without_ns(c@, 0) =~= out@ + without_ns(c@, i + 1));
            i += 1;
        }
    }
    assert(without_ns(c@, n as int) =~= Seq::<char>::empty());
    assert(out@ =~= without_ns(c@, 0));
    out
}

/// The serial in an endpoint address: without a leading `urn:`, then
/// without a leading `uuid:`.
pub open spec fn endpoint_uuid(a: Seq<char>) -> Seq<char> {
    strip_prefix(strip_prefix(a, "urn:"@), "uuid:"@)
}

/// The device of an answer from `from` (decoded leniently): the serial from
/// the `Address` element, the type the `Types` element without namespace
/// prefixes; none when either is missing or empty; version 0.
pub open spec fn wsd_devices(from: IpAddr, x: Seq<char>) -> Seq<DeviceView> {
    match tag_text(x, "Address"@) {
        None => Seq::empty(),
        Some(a) => match tag_text(x, "Types"@) {
            None => Seq::empty(),
            Some(t) => {
                let serial = endpoint_uuid(a);
                let model = without_ns(t, 0);
                if model.len() == 0 || serial.len() == 0 {
                    Seq::empty()
                } else {
                    seq![DeviceView { protocol: "WSDiscovery"@, version: 0, ip: from, mac: Seq::empty(), device_type: model, serial }]
                }
            },
        },
    }
}

pub fn parse(from: IpAddr, data: &[u8]) -> (devs: Vec<Device>)
    ensures
        views(devs@) == wsd_devices(from, lossy_utf8(data@)),
{
    let mut out: Vec<Device> = Vec::new();
    let x = utf8_lossy(data);
    let a = match extract_tag(x.as_slice(), "Address") {
        Some(a) => a,
        None => {
            return out;
        },
    };
    let s1 = strip_prefix_exec(a.as_slice(), "urn:");
    let serial = strip_prefix_exec(s1.as_slice(), "uuid:");
    let t = match extract_tag(x.as_slice(), "Types") {
        Some(t) => t,
        None => {
            return out;
        },
    };
    let model = remove_namespace(t.as_slice());
    if model.len() == 0 || serial.len() == 0 {
        return out;
    }
    let no_mac: Vec<char> = Vec::new();
    out.push(make_device("WSDiscovery", 0, from, no_mac.as_slice(), model.as_slice(), serial.as_slice()));
    assert(views(out@) =~= wsd_devices(from, lossy_utf8(data@)));
    out
}

} // verus!
