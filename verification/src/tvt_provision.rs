//! TVT layer-2 provisioning: the 140-byte `MHED` set-IP request (message
//! type 3), sent to the multicast group 234.55.55.55 port 23456.
//!
//! Layout: `MHED` at 0; protocol version (LE32) at 0x04; type 3 at 0x08;
//! target MAC at 0x20; new IP, mask and gateway (network order) at 0x28,
//! 0x2C and 0x30; base64 of the admin password at 0x54 (at most 28
//! characters, so at most 21 plain bytes); DHCP switch at 0x8A.

use vstd::prelude::*;
use vstd::string::StringSliceAdditionalSpecFns;
use vstd::utf8::encode_utf8;
use base64::Engine;
use crate::cli::TvtSetArgs;
use crate::config::Error;
use crate::text::{mac_chars, hex_digit};
use crate::text::{str_chars, string_from_chars};

verus! {

pub const PACKET_SIZE: usize = 140;
pub const DEFAULT_PROTOCOL_VERSION: u32 = 0x0001_0008;
pub const SET_IP_PORT: u16 = 23456;
pub const MAX_PLAINTEXT_PASSWORD: usize = 21;

/// The multicast group of the request.
pub fn set_ip_group() -> (g: [u8; 4])
    ensures
        g@ == seq![234u8, 55, 55, 55],
{
    let g = [234u8, 55, 55, 55];
    assert(g@ =~= seq![234u8, 55, 55, 55]);
    g
}

/// The parameters of a set-IP request (`protocol_version` 0 means the default).
#[derive(Debug)]
pub struct SetIpRequest {
    pub mac: [u8; 6],
    pub password: String,
    pub new_ip: [u8; 4],
    pub subnet_mask: [u8; 4],
    pub gateway: [u8; 4],
    pub dhcp: bool,
    pub protocol_version: u32,
}

// ----------------------------------------------------------------------------
// MAC text.
// ----------------------------------------------------------------------------

pub open spec fn hex_val(c: char) -> int {
    if '0' <= c && c <= '9' {
        c as int - 48
    } else if 'a' <= c && c <= 'f' {
        c as int - 87
    } else if 'A' <= c && c <= 'F' {
        c as int - 55
    } else {
        -1
    }
}

/// `AA:BB:CC:DD:EE:FF` in either case: six pairs of hex digits separated by colons.
pub open spec fn mac_text_ok(s: Seq<char>) -> bool {
    &&& s.len() == 17
    &&& forall|i: int| 0 <= i < 17 ==> if i % 3 == 2 {
        s[i] == ':'
    } else {
        hex_val(#[trigger] s[i]) >= 0
    }
}

/// The octets of a well-formed MAC text.
pub open spec fn mac_text_octets(s: Seq<char>) -> Seq<u8> {
    Seq::new(6, |k: int| (hex_val(s[3 * k]) * 16 + hex_val(s[3 * k + 1])) as u8)
}

/// The error message for a text that is not a MAC.
pub open spec fn invalid_mac_message(s: Seq<char>) -> Seq<char> {
    "invalid MAC address: "@ + s
}

fn hex_val_exec(c: char) -> (v: i32)
    ensures
        v == hex_val(c),
{
    if '0' <= c && c <= '9' {
        (c as u32 - 48) as i32
    } else if 'a' <= c && c <= 'f' {
        (c as u32 - 87) as i32
    } else if 'A' <= c && c <= 'F' {
        (c as u32 - 55) as i32
    } else {
        -1
    }
}

/// Parses a MAC written `AA:BB:CC:DD:EE:FF` (either case); anything else is
/// a configuration error quoting the text.
pub fn parse_mac(text: &str) -> (r: Result<[u8; 6], Error>)
    ensures
        match r {
            Ok(m) => mac_text_ok(text@) && m@ == mac_text_octets(text@),
            Err(e) => !mac_text_ok(text@) && (e matches Error::Config(msg) && msg@ == invalid_mac_message(text@)),
        },
{
    let s = str_chars(text);
    let mut ok = s.len() == 17;
    let mut i: usize = 0;
    while ok && i < 17
        invariant
            i <= 17,
            ok ==> s@.len() == 17,
            s@ == text@,
            ok ==> forall|j: int| 0 <= j < i ==> if j % 3 == 2 {
                s@[j] == ':'
            } else {
                hex_val(#[trigger] s@[j]) >= 0
            },
            !ok ==> !mac_text_ok(text@),
        decreases 17 - i,
    {
        if i % 3 == 2 {
            if s[i] != ':' {
                ok = false;
            }
        } else if hex_val_exec(s[i]) < 0 {
            ok = false;
        }
        i += 1;
    }
    if !ok {
        let mut msg = str_chars("invalid MAC address: ");
        let mut t = str_chars(text);
        msg.append(&mut t);
        return Err(Error::Config(string_from_chars(msg.as_slice())));
    }
    let mut out = [0u8; 6];
    let mut k: usize = 0;
    while k < 6
        invariant
            k <= 6,
            s@.len() == 17,
            s@ == text@,
            mac_text_ok(text@),
            forall|j: int| 0 <= j < k ==> out@[j] == mac_text_octets(text@)[j],
        decreases 6 - k,
    {
        let hi = hex_val_exec(s[3 * k]);
        let lo = hex_val_exec(s[3 * k + 1]);
        assert(hex_val(s@[3 * k as int]) >= 0 && hex_val(s@[3 * k + 1]) >= 0);
        assert(hi < 16 && lo < 16);
        out[k] = (hi * 16 + lo) as u8;
        k += 1;
    }
    assert(out@ =~= mac_text_octets(text@));
    Ok(out)
}

// ----------------------------------------------------------------------------
// The request.
// ----------------------------------------------------------------------------

/// The character of a six-bit value in the standard base64 alphabet:
/// `A`..`Z`, `a`..`z`, `0`..`9`, `+`, `/`.
pub open spec fn b64_digit(v: int) -> u8 {
    if v < 26 {
        (65 + v) as u8
    } else if v < 52 {
        (71 + v) as u8
    } else if v < 62 {
        (v - 4) as u8
    } else if v == 62 {
        43u8
    } else {
        47u8
    }
}

/// The standard base64 encoding (padded with `=`) of some bytes, as ASCII
/// bytes: each group of three bytes becomes four characters of six bits
/// each; a last group of one or two bytes becomes two or three characters
/// and `=` padding up to four.
pub open spec fn base64_standard(b: Seq<u8>) -> Seq<u8>
    decreases b.len(),
{
    if b.len() == 0 {
        Seq::empty()
    } else {
        let x: int = b[0] as int;
        let y: int = if b.len() > 1 { b[1] as int } else { 0 };
        let z: int = if b.len() > 2 { b[2] as int } else { 0 };
        if b.len() == 1 {
            seq![b64_digit(x / 4), b64_digit((x % 4) * 16), 61u8, 61u8]
        } else if b.len() == 2 {
            seq![b64_digit(x / 4), b64_digit((x % 4) * 16 + y / 16), b64_digit((y % 16) * 4), 61u8]
        } else {
            seq![b64_digit(x / 4), b64_digit((x % 4) * 16 + y / 16), b64_digit((y % 16) * 4 + z / 64), b64_digit(z % 64)]
                + base64_standard(b.subrange(3, b.len() as int))
        }
    }
}

proof fn lemma_base64_len(b: Seq<u8>)
    ensures
        base64_standard(b).len() == 4 * ((b.len() + 2) / 3),
    decreases b.len(),
{
    if b.len() > 2 {
        lemma_base64_len(b.subrange(3, b.len() as int));
    }
}

/// Encodes bytes in standard padded base64 (base64 crate, `STANDARD.encode`).
/// Trusted: the result is the standard padded encoding that
/// `base64_standard` states, which is what the crate's `STANDARD` engine
/// (standard alphabet, padding on) produces.
#[verifier::external_body]
fn base64_encode(bytes: &[u8]) -> (r: Vec<u8>)
    requires
        (bytes@.len() / 3) * 4 + 4 <= usize::MAX,
    ensures
        r@ == base64_standard(bytes@),
{
    base64::engine::general_purpose::STANDARD.encode(bytes).into_bytes()
}

/// The version the request carries.
pub open spec fn effective_version(v: u32) -> u32 {
    if v == 0 {
        DEFAULT_PROTOCOL_VERSION
    } else {
        v
    }
}

/// Byte `i` of the request, given the base64 of the password.
pub open spec fn set_ip_byte(req: SetIpRequest, enc: Seq<u8>, i: int) -> u8 {
    let v = effective_version(req.protocol_version);
    if i == 0 {
        0x4d
    } else if i == 1 {
        0x48
    } else if i == 2 {
        0x45
    } else if i == 3 {
        0x44
    } else if i == 4 {
        (v % 256) as u8
    } else if i == 5 {
        ((v / 256) % 256) as u8
    } else if i == 6 {
        ((v / 65536) % 256) as u8
    } else if i == 7 {
        (v / 16777216) as u8
    } else if i == 8 {
        3
    } else if 0x20 <= i < 0x26 {
        req.mac[i - 0x20]
    } else if 0x28 <= i < 0x2c {
        req.new_ip[i - 0x28]
    } else if 0x2c <= i < 0x30 {
        req.subnet_mask[i - 0x2c]
    } else if 0x30 <= i < 0x34 {
        req.gateway[i - 0x30]
    } else if 0x54 <= i < 0x54 + enc.len() {
        enc[i - 0x54]
    } else if i == 0x8a {
        if req.dhcp {
            1
        } else {
            0
        }
    } else {
        0
    }
}

/// The request's bytes.
pub open spec fn set_ip_packet(req: SetIpRequest, enc: Seq<u8>) -> Seq<u8> {
    Seq::new(140, |i: int| set_ip_byte(req, enc, i))
}

/// The error message for a password too long for the packet.
pub open spec fn password_too_long_message() -> Seq<char> {
    "admin password too long for TVT L2 provisioning (max 21 bytes)"@
}

/// Builds the 140-byte set-IP request. A password longer than 21 bytes
/// (whose base64 exceeds the 28 characters of room) is a configuration error.
pub fn build_set_ip_request(req: &SetIpRequest) -> (r: Result<[u8; PACKET_SIZE], Error>)
    requires
        (encode_utf8(req.password@).len() / 3) * 4 + 4 <= usize::MAX,
    ensures
        match r {
            Ok(p) => encode_utf8(req.password@).len() <= 21
                && p@ == set_ip_packet(*req, base64_standard(encode_utf8(req.password@))),
            Err(e) => encode_utf8(req.password@).len() > 21
                && (e matches Error::Config(m) && m@ == password_too_long_message()),
        },
{
    let version: u32 = if req.protocol_version == 0 { DEFAULT_PROTOCOL_VERSION } else { req.protocol_version };
    let bytes = req.password.as_str().as_bytes();
    let enc = base64_encode(bytes);
    proof {
        lemma_base64_len(bytes@);
    }
    if enc.len() > 28 {
        return Err(Error::Config(crate::text::owned("admin password too long for TVT L2 provisioning (max 21 bytes)")));
    }
    let ghost e = enc@;
    let mut p = [0u8; PACKET_SIZE];
    let mut i: usize = 0;
    while i < PACKET_SIZE
        invariant
            i <= PACKET_SIZE,
            e == enc@,
            e.len() <= 28,
            version == effective_version(req.protocol_version),
            p@.len() == 140,
            forall|j: int| 0 <= j < i ==> p@[j] == set_ip_byte(*req, e, j),
        decreases PACKET_SIZE - i,
    {
        let b: u8 = if i == 0 {
            0x4d
        } else if i == 1 {
            0x48
        } else if i == 2 {
            0x45
        } else if i == 3 {
            0x44
        } else if i == 4 {
            (version % 256) as u8
        } else if i == 5 {
            ((version / 256) % 256) as u8
        } else if i == 6 {
            ((version / 65536) % 256) as u8
        } else if i == 7 {
            (version / 16777216) as u8
        } else if i == 8 {
            3
        } else if 0x20 <= i && i < 0x26 {
            req.mac[i - 0x20]
        } else if 0x28 <= i && i < 0x2c {
            req.new_ip[i - 0x28]
        } else if 0x2c <= i && i < 0x30 {
            req.subnet_mask[i - 0x2c]
        } else if 0x30 <= i && i < 0x34 {
            req.gateway[i - 0x30]
        } else if 0x54 <= i && i < 0x54 + enc.len() {
            enc[i - 0x54]
        } else if i == 0x8a {
            if req.dhcp { 1 } else { 0 }
        } else {
            0
        };
        p[i] = b;
        i += 1;
    }
    assert(p@ =~= set_ip_packet(*req, e));
    Ok(p)
}

// ----------------------------------------------------------------------------
// Hex dump.
// ----------------------------------------------------------------------------

pub open spec fn lhex(n: int) -> char {
    if n < 10 {
        (48 + n) as char
    } else {
        (87 + n) as char
    }
}

/// Two lower-case hex digits.
pub open spec fn hex_byte(b: u8) -> Seq<char> {
    seq![lhex(b as int / 16), lhex(b as int % 16)]
}

/// The byte as shown: the password region (0x54 up to 0x7A) reads zero.
pub open spec fn shown_byte(p: Seq<u8>, i: int) -> u8 {
    if 0x54 <= i < 0x7A {
        0
    } else {
        p[i]
    }
}

/// The bytes `from..to` as hex pairs separated by spaces.
pub open spec fn hex_run(p: Seq<u8>, from: int, to: int) -> Seq<char>
    decreases to - from,
{
    if to <= from {
        Seq::empty()
    } else if to == from + 1 {
        hex_byte(shown_byte(p, from))
    } else {
        hex_run(p, from, to - 1) + seq![' '] + hex_byte(shown_byte(p, to - 1))
    }
}

/// Line `k`: the offset as four hex digits, two spaces, up to sixteen bytes, a newline.
pub open spec fn dump_line(p: Seq<u8>, k: int) -> Seq<char> {
    let off = k * 16;
    let end = if off + 16 <= p.len() { off + 16 } else { p.len() as int };
    seq![lhex(off / 4096 % 16), lhex(off / 256 % 16), lhex(off / 16 % 16), lhex(off % 16), ' ', ' ']
        + hex_run(p, off, end) + seq!['\n']
}

/// The first `n` lines.
pub open spec fn dump_lines(p: Seq<u8>, n: int) -> Seq<char>
    decreases n,
{
    if n <= 0 {
        Seq::empty()
    } else {
        dump_lines(p, n - 1) + dump_line(p, n - 1)
    }
}

fn lhex_exec(n: u32) -> (c: char)
    requires
        n < 16,
    ensures
        c == lhex(n as int),
{
    if n < 10 {
        (48 + n) as u8 as char
    } else {
        (87 + n) as u8 as char
    }
}

/// A hex dump of the request, sixteen bytes a line after a four-digit
/// offset, with the password region blanked out.
pub fn hex_dump(packet: &[u8; PACKET_SIZE]) -> (s: String)
    ensures
        s@ == dump_lines(packet@, 9),
{
    let ghost p = packet@;
    let mut out: Vec<char> = Vec::new();
    let mut k: usize = 0;
    while k < 9
        invariant
            k <= 9,
            p == packet@,
            p.len() == 140,
            out@ == dump_lines(p, k as int),
        decreases 9 - k,
    {
        let off: usize = k * 16;
        let end: usize = if off + 16 <= 140 { off + 16 } else { 140 };
        let ghost before = out@;
        out.push(lhex_exec((off / 4096 % 16) as u32));
        out.push(lhex_exec((off / 256 % 16) as u32));
        out.push(lhex_exec((off / 16 % 16) as u32));
        out.push(lhex_exec((off % 16) as u32));
        out.push(' ');
        out.push(' ');
        let ghost head = out@;
        let mut i = off;
        while i < end
            invariant
                off < end <= 140,
                off <= i <= end,
                p == packet@,
                p.len() == 140,
                out@ == head + hex_run(p, off as int, i as int),
            decreases end - i,
        {
            let b: u8 = if 0x54 <= i && i < 0x7A { 0 } else { packet[i] };
            if i > off {
                out.push(' ');
            }
            out.push(lhex_exec((b / 16) as u32));
            out.push(lhex_exec((b % 16) as u32));
            i += 1;
            assert(out@ =~= head + hex_run(p, off as int, i as int));
        }
        out.push('\n');
        k += 1;
        assert(out@ =~= dump_lines(p, k as int));
    }
    string_from_chars(out.as_slice())
}

/// The request that set-IP arguments describe, or the error for a MAC text
/// that is not one.
pub fn request_from_args(args: &TvtSetArgs) -> (r: Result<SetIpRequest, Error>)
    ensures
        match r {
            Ok(req) => mac_text_ok(args.mac@) && req.mac@ == mac_text_octets(args.mac@)
                && req.password@ == args.password@ && req.new_ip == args.ip && req.subnet_mask == args.mask
                && req.gateway == args.gateway && req.dhcp == args.dhcp && req.protocol_version == args.version,
            Err(e) => !mac_text_ok(args.mac@) && (e matches Error::Config(msg) && msg@ == invalid_mac_message(args.mac@)),
        },
{
    match parse_mac(args.mac.as_str()) {
        Ok(mac) => Ok(SetIpRequest {
            mac,
            password: args.password.clone(),
            new_ip: args.ip,
            subnet_mask: args.mask,
            gateway: args.gateway,
            dhcp: args.dhcp,
            protocol_version: args.version,
        }),
        Err(e) => Err(e),
    }
}

/// Two packets of one length that agree outside the password region.
pub open spec fn same_but_password(p: Seq<u8>, q: Seq<u8>) -> bool {
    &&& p.len() == q.len()
    &&& forall|i: int| 0 <= i < p.len() && !(0x54 <= i < 0x7A) ==> p[i] == q[i]
}

proof fn lemma_hex_run_hides(p: Seq<u8>, q: Seq<u8>, from: int, to: int)
    requires
        same_but_password(p, q),
        0 <= from,
        to <= p.len(),
    ensures
        hex_run(p, from, to) == hex_run(q, from, to),
    decreases to - from,
{
    if to > from + 1 {
        lemma_hex_run_hides(p, q, from, to - 1);
    }
}

proof fn lemma_dump_lines_hide(p: Seq<u8>, q: Seq<u8>, n: int)
    requires
        same_but_password(p, q),
    ensures
        dump_lines(p, n) == dump_lines(q, n),
    decreases n,
{
    if n > 0 {
        lemma_dump_lines_hide(p, q, n - 1);
        let off = (n - 1) * 16;
        let end = if off + 16 <= p.len() { off + 16 } else { p.len() as int };
        if off >= 0 {
            lemma_hex_run_hides(p, q, off, end);
        }
    }
}

/// The dump does not depend on the password: two packets that differ only
/// in the password region dump to the same text.
pub proof fn law_dump_hides_password(p: Seq<u8>, q: Seq<u8>)
    requires
        same_but_password(p, q),
    ensures
        dump_lines(p, 9) == dump_lines(q, 9),
{
    lemma_dump_lines_hide(p, q, 9);
}

proof fn lemma_hex_digit_val(n: int)
    requires
        0 <= n < 16,
    ensures
        hex_val(hex_digit(n)) == n,
{
}

/// The upper-case text of any six octets (`AA:BB:CC:DD:EE:FF`, as devices
/// show MACs) is a MAC text, and parsing it gives the octets back.
pub proof fn law_mac_text_roundtrip(m: Seq<u8>)
    requires
        m.len() == 6,
    ensures
        mac_text_ok(mac_chars(m)),
        mac_text_octets(mac_chars(m)) == m,
{
    let s = mac_chars(m);
    assert forall|k: int| 0 <= k < 6 implies s[3 * k] == hex_digit(m[k] as int / 16) && s[3 * k + 1] == hex_digit(m[k] as int % 16)
        && (k < 5 ==> s[3 * k + 2] == ':') by {
    }
    assert forall|k: int| 0 <= k < 6 implies hex_val(#[trigger] s[3 * k]) == m[k] as int / 16 && hex_val(s[3 * k + 1]) == m[k] as int % 16 by {
        lemma_hex_digit_val(m[k] as int / 16);
        lemma_hex_digit_val(m[k] as int % 16);
    }
    assert forall|i: int| 0 <= i < 17 implies (if i % 3 == 2 { s[i] == ':' } else { hex_val(#[trigger] s[i]) >= 0 }) by {
        let k = i / 3;
        if i % 3 == 0 {
            assert(i == 3 * k);
        } else if i % 3 == 1 {
            assert(i == 3 * k + 1);
        } else {
            assert(i == 3 * k + 2);
        }
    }
    assert(mac_text_octets(s) =~= m);
}

} // verus!
