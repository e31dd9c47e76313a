//! Rendering discovered devices as table, CSV, JSON Lines or TSV rows.
//!
//! CSV and TSV have the header `protocol,version,ip,type,serial`; JSON Lines
//! and the table have none. The table hides the version unless asked, and
//! colours the protocol with its engine's colour unless colour is off.

use vstd::prelude::*;
use owo_colors::OwoColorize;
use crate::cli::OutputFormat;
use crate::devices::{Device, DeviceView, DeviceTable};
use crate::ip::ip_text;
use crate::protocols::engines::{Engine, engine_name, engine_color, scan_engines, scan_table};
use crate::protocols::common::chars_eq;
use crate::text::{decimal, push_decimal, str_chars, string_from_chars};

verus! {

// ----------------------------------------------------------------------------
// JSON strings and terminal colours, from serde_json and owo-colors.
// ----------------------------------------------------------------------------

/// A character inside a JSON string: `"` and `\` escaped with a backslash,
/// the control characters with their short escapes (`\b \t \n \f \r`) or as
/// `\u00XX` (lower-case hex), everything else as itself.
pub open spec fn json_escape(c: char) -> Seq<char> {
    let u = c as u32;
    if c == '"' {
        seq!['\\', '"']
    } else if c == '\\' {
        seq!['\\', '\\']
    } else if u == 0x08 {
        seq!['\\', 'b']
    } else if u == 0x09 {
        seq!['\\', 't']
    } else if u == 0x0A {
        seq!['\\', 'n']
    } else if u == 0x0C {
        seq!['\\', 'f']
    } else if u == 0x0D {
        seq!['\\', 'r']
    } else if u < 0x20 {
        seq!['\\', 'u', '0', '0', hex_lower_digit((u / 16) as int), hex_lower_digit((u % 16) as int)]
    } else {
        seq![c]
    }
}

pub open spec fn hex_lower_digit(n: int) -> char {
    if n < 10 {
        (48 + n) as char
    } else {
        (87 + n) as char
    }
}

pub open spec fn json_escaped(s: Seq<char>) -> Seq<char>
    decreases s.len(),
{
    if s.len() == 0 {
        Seq::empty()
    } else {
        json_escaped(s.drop_last()) + json_escape(s.last())
    }
}

/// A JSON string literal.
pub open spec fn json_quoted(s: Seq<char>) -> Seq<char> {
    seq!['"'] + json_escaped(s) + seq!['"']
}

/// The JSON text of a string value (serde_json `Value::String` displayed).
/// Trusted: serde_json writes the string between double quotes, escaping
/// bytes as its escape table lists (`json_escape`).
#[verifier::external_body]
fn json_string(s: &str) -> (r: String)
    ensures
        r@ == json_quoted(s@),
{
    serde_json::Value::from(s).to_string()
}

/// Text in 24-bit foreground colour: `ESC [38;2;R;G;Bm`, the text, `ESC [39m`.
pub open spec fn truecolored(s: Seq<char>, r: u8, g: u8, b: u8) -> Seq<char> {
    seq!['\x1b', '[', '3', '8', ';', '2', ';'] + decimal(r as nat) + seq![';'] + decimal(g as nat) + seq![';']
        + decimal(b as nat) + seq!['m'] + s + seq!['\x1b', '[', '3', '9', 'm']
}

/// Displays text in an RGB foreground colour (owo-colors `truecolor`).
/// Trusted: the display is the escape sequence `truecolored` states, which
/// is what owo-colors writes for an `Rgb` foreground.
#[verifier::external_body]
fn truecolor(s: &str, r: u8, g: u8, b: u8) -> (t: String)
    ensures
        t@ == truecolored(s@, r, g, b),
{
    format!("{}", s.truecolor(r, g, b))
}

// ----------------------------------------------------------------------------
// Rows.
// ----------------------------------------------------------------------------

/// A CSV field: between double quotes, each `"` doubled.
pub open spec fn csv_doubled(s: Seq<char>) -> Seq<char>
    decreases s.len(),
{
    if s.len() == 0 {
        Seq::empty()
    } else {
        csv_doubled(s.drop_last()) + if s.last() == '"' {
            seq!['"', '"']
        } else {
            seq![s.last()]
        }
    }
}

pub open spec fn csv_field(s: Seq<char>) -> Seq<char> {
    seq!['"'] + csv_doubled(s) + seq!['"']
}

pub open spec fn csv_row(d: DeviceView) -> Seq<char> {
    csv_field(d.protocol) + seq![','] + csv_field(decimal(d.version as nat)) + seq![','] + csv_field(ip_text(d.ip))
        + seq![','] + csv_field(d.device_type) + seq![','] + csv_field(d.serial)
}

pub open spec fn tsv_row(d: DeviceView) -> Seq<char> {
    d.protocol + seq!['\t'] + decimal(d.version as nat) + seq!['\t'] + ip_text(d.ip) + seq!['\t'] + d.device_type
        + seq!['\t'] + d.serial
}

/// One JSON object per line, keys in sorted order.
pub open spec fn json_row(d: DeviceView) -> Seq<char> {
    "{\"ip\":"@ + json_quoted(ip_text(d.ip)) + ",\"protocol\":"@ + json_quoted(d.protocol) + ",\"serial\":"@
        + json_quoted(d.serial) + ",\"type\":"@ + json_quoted(d.device_type) + ",\"version\":"@
        + decimal(d.version as nat) + "}"@
}

/// The colour of a protocol's rows: that of the last engine of a scan with
/// that name, white for an unknown name.
pub open spec fn color_in(t: Seq<(u16, Engine)>, name: Seq<char>) -> u32
    decreases t.len(),
{
    if t.len() == 0 {
        0xFFFFFF
    } else if engine_name(t.last().1) == name {
        engine_color(t.last().1)
    } else {
        color_in(t.drop_last(), name)
    }
}

pub open spec fn protocol_color_of(name: Seq<char>) -> u32 {
    color_in(scan_table(), name)
}

/// The text, in the colour `rgb` (`0xRRGGBB`) when `color` is on.
pub open spec fn colorized(s: Seq<char>, color: bool, rgb: u32) -> Seq<char> {
    if color {
        truecolored(s, (rgb / 65536 % 256) as u8, (rgb / 256 % 256) as u8, (rgb % 256) as u8)
    } else {
        s
    }
}

/// Protocol, (version,) IP, type and serial joined by ` | `.
pub open spec fn table_row(d: DeviceView, show_version: bool, color: bool) -> Seq<char> {
    colorized(d.protocol, color, protocol_color_of(d.protocol)) + (if show_version {
        " | "@ + decimal(d.version as nat)
    } else {
        Seq::empty()
    }) + " | "@ + ip_text(d.ip) + " | "@ + d.device_type + " | "@ + d.serial
}

pub open spec fn row_text(d: DeviceView, format: OutputFormat, show_version: bool, color: bool) -> Seq<char> {
    match format {
        OutputFormat::Csv => csv_row(d),
        OutputFormat::Tsv => tsv_row(d),
        OutputFormat::Json => json_row(d),
        OutputFormat::Table => table_row(d, show_version, color),
    }
}

pub open spec fn header_text(format: OutputFormat) -> Option<Seq<char>> {
    match format {
        OutputFormat::Csv => Some("protocol,version,ip,type,serial"@),
        OutputFormat::Tsv => Some("protocol\tversion\tip\ttype\tserial"@),
        _ => None,
    }
}

fn push_str(out: &mut Vec<char>, s: &str)
    ensures
        final(out)@ == old(out)@ + s@,
{
    let mut c = str_chars(s);
    out.append(&mut c);
}

fn push_csv_field(out: &mut Vec<char>, s: &str)
    ensures
        final(out)@ == old(out)@ + csv_field(s@),
{
    let ghost o = out@;
    let c = str_chars(s);
    out.push('"');
    let mut i: usize = 0;
    while i < c.len()
        invariant
            i <= c@.len(),
            c@ == s@,
            out@ == o + seq!['"'] + csv_doubled(c@.subrange(0, i as int)),
        decreases c@.len() - i,
    {
        proof {
            assert(c@.subrange(0, i + 1).drop_last() =~= c@.subrange(0, i as int));
        }
        if c[i] == '"' {
            out.push('"');
            out.push('"');
        } else {
            out.push(c[i]);
        }
        i += 1;
        assert(out@ =~= o + seq!['"'] + csv_doubled(c@.subrange(0, i as int)));
    }
    assert(c@.subrange(0, c@.len() as int) =~= c@);
    out.push('"');
    assert(out@ =~= o + csv_field(s@));
}

fn decimal_string(n: u32) -> (s: String)
    ensures
        s@ == decimal(n as nat),
{
    let mut v: Vec<char> = Vec::new();
    push_decimal(&mut v, n as u64);
    assert(v@ =~= decimal(n as nat));
    string_from_chars(v.as_slice())
}

pub fn render_csv(d: &Device) -> (r: String)
    ensures
        r@ == csv_row(d@),
{
    let ghost dv = d@;
    let mut out: Vec<char> = Vec::new();
    push_csv_field(&mut out, d.protocol.as_str());
    out.push(',');
    let v = decimal_string(d.version);
    push_csv_field(&mut out, v.as_str());
    out.push(',');
    let ip = d.ip.to_text();
    push_csv_field(&mut out, ip.as_str());
    out.push(',');
    push_csv_field(&mut out, d.device_type.as_str());
    out.push(',');
    push_csv_field(&mut out, d.serial.as_str());
    assert(out@ =~= csv_row(dv));
    string_from_chars(out.as_slice())
}

pub fn render_tsv(d: &Device) -> (r: String)
    ensures
        r@ == tsv_row(d@),
{
    let ghost dv = d@;
    let mut out: Vec<char> = Vec::new();
    push_str(&mut out, d.protocol.as_str());
    out.push('\t');
    push_decimal(&mut out, d.version as u64);
    out.push('\t');
    d.ip.push_text(&mut out);
    out.push('\t');
    push_str(&mut out, d.device_type.as_str());
    out.push('\t');
    push_str(&mut out, d.serial.as_str());
    assert(out@ =~= tsv_row(dv));
    string_from_chars(out.as_slice())
}

pub fn render_json(d: &Device) -> (r: String)
    ensures
        r@ == json_row(d@),
{
    let ghost dv = d@;
    let mut out: Vec<char> = Vec::new();
    push_str(&mut out, "{\"ip\":");
    let ip = d.ip.to_text();
    let q = json_string(ip.as_str());
    push_str(&mut out, q.as_str());
    push_str(&mut out, ",\"protocol\":");
    let q = json_string(d.protocol.as_str());
    push_str(&mut out, q.as_str());
    push_str(&mut out, ",\"serial\":");
    let q = json_string(d.serial.as_str());
    push_str(&mut out, q.as_str());
    push_str(&mut out, ",\"type\":");
    let q = json_string(d.device_type.as_str());
    push_str(&mut out, q.as_str());
    push_str(&mut out, ",\"version\":");
    push_decimal(&mut out, d.version as u64);
    push_str(&mut out, "}");
    assert(out@ =~= json_row(dv));
    string_from_chars(out.as_slice())
}

/// The colour of a protocol's rows (see `color_in`).
pub fn protocol_color(name: &str) -> (rgb: u32)
    ensures
        rgb == protocol_color_of(name@),
{
    let reg = scan_engines();
    let want = str_chars(name);
    let mut i: usize = reg.len();
    assert(reg@.subrange(0, i as int) =~= reg@);
    while i > 0
        invariant
            i <= reg@.len(),
            reg@ == scan_table(),
            want@ == name@,
            color_in(reg@, name@) == color_in(reg@.subrange(0, i as int), name@),
        decreases i,
    {
        let ghost t = reg@.subrange(0, i as int);
        let (_, e) = reg[i - 1];
        let n = str_chars(e.name());
        assert(t.last() == reg@[i - 1]);
        if chars_eq(n.as_slice(), want.as_slice()) {
            return e.color();
        }
        assert(t.drop_last() =~= reg@.subrange(0, i - 1));
        i -= 1;
    }
    0xFFFFFF
}

/// The text in the colour `rgb` when `color` is on; unchanged otherwise.
pub fn colorize(s: &str, color: bool, rgb: u32) -> (r: String)
    ensures
        r@ == colorized(s@, color, rgb),
{
    if !color {
        return crate::text::owned(s);
    }
    truecolor(s, (rgb / 65536 % 256) as u8, (rgb / 256 % 256) as u8, (rgb % 256) as u8)
}

pub fn render_table(d: &Device, show_version: bool, color: bool) -> (r: String)
    ensures
        r@ == table_row(d@, show_version, color),
{
    let ghost dv = d@;
    let rgb = protocol_color(d.protocol.as_str());
    let proto = colorize(d.protocol.as_str(), color, rgb);
    let mut out: Vec<char> = Vec::new();
    push_str(&mut out, proto.as_str());
    if show_version {
        push_str(&mut out, " | ");
        push_decimal(&mut out, d.version as u64);
    }
    push_str(&mut out, " | ");
    d.ip.push_text(&mut out);
    push_str(&mut out, " | ");
    push_str(&mut out, d.device_type.as_str());
    push_str(&mut out, " | ");
    push_str(&mut out, d.serial.as_str());
    assert(out@ =~= table_row(dv, show_version, color));
    string_from_chars(out.as_slice())
}

/// The header line, for CSV and TSV only.
pub fn header(format: OutputFormat) -> (h: Option<String>)
    ensures
        match h {
            Some(s) => header_text(format) == Some(s@),
            None => header_text(format) is None,
        },
{
    match format {
        OutputFormat::Csv => Some(crate::text::owned("protocol,version,ip,type,serial")),
        OutputFormat::Tsv => Some(crate::text::owned("protocol\tversion\tip\ttype\tserial")),
        OutputFormat::Json | OutputFormat::Table => None,
    }
}

/// One device as a line of the given format.
pub fn render_row(d: &Device, format: OutputFormat, show_version: bool, color: bool) -> (r: String)
    ensures
        r@ == row_text(d@, format, show_version, color),
{
    match format {
        OutputFormat::Csv => render_csv(d),
        OutputFormat::Tsv => render_tsv(d),
        OutputFormat::Json => render_json(d),
        OutputFormat::Table => render_table(d, show_version, color),
    }
}

pub open spec fn line_views(v: Seq<String>) -> Seq<Seq<char>> {
    v.map_values(|s: String| s@)
}

/// The lines a batch run prints at the end: the header (if the format has
/// one), then every device of the table in discovery order.
pub open spec fn batch_text(entries: Seq<DeviceView>, format: OutputFormat, show_version: bool, color: bool) -> Seq<Seq<char>> {
    (match header_text(format) {
        Some(h) => seq![h],
        None => Seq::empty(),
    }) + entries.map_values(|d: DeviceView| row_text(d, format, show_version, color))
}

pub fn batch_lines(table: &DeviceTable, format: OutputFormat, show_version: bool, color: bool) -> (lines: Vec<String>)
    ensures
        line_views(lines@) == batch_text(table.entries_view(), format, show_version, color),
{
    let mut out: Vec<String> = Vec::new();
    if let Some(h) = header(format) {
        out.push(h);
    }
    let ghost head = line_views(out@);
    let devs = table.all();
    let ghost ev = table.entries_view();
    let mut i: usize = 0;
    while i < devs.len()
        invariant
            i <= devs@.len(),
            devs@.len() == ev.len(),
            ev == table.entries_view(),
            forall|j: int| 0 <= j < devs@.len() ==> (#[trigger] devs@[j])@ == ev[j],
            line_views(out@) == head + ev.subrange(0, i as int).map_values(|d: DeviceView| row_text(d, format, show_version, color)),
        decreases devs@.len() - i,
    {
        let line = render_row(devs[i], format, show_version, color);
        let ghost before = out@;
        out.push(line);
        i += 1;
        proof {
            assert(line_views(out@) =~= line_views(before).push(line@));
            assert(ev.subrange(0, i as int).map_values(|d: DeviceView| row_text(d, format, show_version, color))
                =~= ev.subrange(0, i - 1).map_values(|d: DeviceView| row_text(d, format, show_version, color)).push(line@));
        }
    }
    proof {
        assert(ev.subrange(0, ev.len() as int) =~= ev);
        assert(head =~= match header_text(format) {
            Some(h) => seq![h],
            None => Seq::<Seq<char>>::empty(),
        });
    }
    out
}

/// A decimal digit character.
pub open spec fn is_digit_char(c: char) -> bool {
    '0' <= c && c <= '9'
}

/// The number a string of decimal digits spells, most significant first.
pub open spec fn digits_value(t: Seq<char>) -> int
    decreases t.len(),
{
    if t.len() == 0 {
        0
    } else {
        digits_value(t.drop_last()) * 10 + (t.last() as int - 48)
    }
}

proof fn lemma_decimal_spells(n: nat)
    ensures
        decimal(n).len() > 0,
        forall|i: int| 0 <= i < decimal(n).len() ==> is_digit_char(#[trigger] decimal(n)[i]),
        digits_value(decimal(n)) == n,
    decreases n,
{
    if n < 10 {
        assert(decimal(n).last() == (48 + n) as char);
        assert(((48 + n) as char) as int == 48 + n);
        assert(decimal(n).drop_last() =~= Seq::<char>::empty());
        assert(digits_value(decimal(n).drop_last()) == 0);
    } else {
        lemma_decimal_spells(n / 10);
        let t = decimal(n);
        assert(t.drop_last() =~= decimal(n / 10));
        assert(t.last() == (48 + n % 10) as char);
        assert((t.last() as int) == 48 + n % 10);
        assert(digits_value(t) == digits_value(t.drop_last()) * 10 + (t.last() as int - 48));
        assert(n == (n / 10) * 10 + n % 10);
        assert forall|i: int| 0 <= i < t.len() implies is_digit_char(#[trigger] t[i]) by {
            if i < t.len() - 1 {
                assert(t[i] == decimal(n / 10)[i]);
            }
        }
    }
}

proof fn lemma_csv_doubled_plain(t: Seq<char>)
    requires
        forall|i: int| 0 <= i < t.len() ==> t[i] != '"',
    ensures
        csv_doubled(t) == t,
    decreases t.len(),
{
    if t.len() > 0 {
        lemma_csv_doubled_plain(t.drop_last());
        assert(t.drop_last().push(t.last()) =~= t);
    }
}

/// The CSV row (what `render_row` prints for CSV) is the quoted protocol,
/// then the device's version as a quoted run of decimal digits that spells
/// exactly that number, then the quoted address, type and serial, joined
/// by commas.
pub proof fn law_csv_version_field(d: DeviceView, show_version: bool, color: bool)
    ensures
        row_text(d, OutputFormat::Csv, show_version, color) == csv_row(d),
        exists|t: Seq<char>| {
            &&& t.len() > 0
            &&& (forall|i: int| 0 <= i < t.len() ==> is_digit_char(#[trigger] t[i]))
            &&& digits_value(t) == d.version as int
            &&& #[trigger] csv_row(d) == csv_field(d.protocol) + seq![',', '"'] + t + seq!['"', ','] + csv_field(ip_text(d.ip))
                + seq![','] + csv_field(d.device_type) + seq![','] + csv_field(d.serial)
        },
{
    let t = decimal(d.version as nat);
    lemma_decimal_spells(d.version as nat);
    assert forall|i: int| 0 <= i < t.len() implies t[i] != '"' by {
        assert(is_digit_char(t[i]));
    }
    lemma_csv_doubled_plain(t);
    assert(csv_row(d) =~= csv_field(d.protocol) + seq![',', '"'] + t + seq!['"', ','] + csv_field(ip_text(d.ip))
        + seq![','] + csv_field(d.device_type) + seq![','] + csv_field(d.serial));
}

} // verus!
