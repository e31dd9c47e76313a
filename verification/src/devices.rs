//! Discovered devices and the table that deduplicates them.

use vstd::prelude::*;
use crate::ip::IpAddr;
use crate::text::{upper_char, to_upper_char, string_from_chars, str_chars};

verus! {

/// One discovery report.
#[derive(Debug)]
pub struct Device {
    pub protocol: String,
    pub version: u32,
    pub ip: IpAddr,
    /// Upper-case colon form (`AA:BB:CC:DD:EE:FF`); empty when the reply has no MAC.
    pub mac: String,
    pub device_type: String,
    pub serial: String,
}

/// A device as plain values.
#[verifier::ext_equal]
pub struct DeviceView {
    pub protocol: Seq<char>,
    pub version: u32,
    pub ip: IpAddr,
    pub mac: Seq<char>,
    pub device_type: Seq<char>,
    pub serial: Seq<char>,
}

impl View for Device {
    type V = DeviceView;

    open spec fn view(&self) -> DeviceView {
        DeviceView {
            protocol: self.protocol@,
            version: self.version,
            ip: self.ip,
            mac: self.mac@,
            device_type: self.device_type@,
            serial: self.serial@,
        }
    }
}

/// The views of a list of devices.
pub open spec fn views(v: Seq<Device>) -> Seq<DeviceView> {
    v.map_values(|d: Device| d@)
}

impl Device {
    /// A device with the given fields.
    pub fn new(protocol: String, version: u32, ip: IpAddr, mac: String, device_type: String, serial: String) -> (d: Device)
        ensures
            d@ == (DeviceView {
                protocol: protocol@,
                version,
                ip,
                mac: mac@,
                device_type: device_type@,
                serial: serial@,
            }),
    {
        Device { protocol, version, ip, mac, device_type, serial }
    }

    /// A field-for-field copy.
    pub fn duplicate(&self) -> (d: Device)
        ensures
            d@ == self@,
    {
        Device {
            protocol: self.protocol.clone(),
            version: self.version,
            ip: self.ip,
            mac: self.mac.clone(),
            device_type: self.device_type.clone(),
            serial: self.serial.clone(),
        }
    }
}

// ----------------------------------------------------------------------------
// MAC normalisation.
// ----------------------------------------------------------------------------

pub open spec fn is_hex_char(c: char) -> bool {
    ('0' <= c && c <= '9') || ('a' <= c && c <= 'f') || ('A' <= c && c <= 'F')
}

/// The hex digits of a text, in order, upper-cased.
pub open spec fn hex_only(s: Seq<char>) -> Seq<char>
    decreases s.len(),
{
    if s.len() == 0 {
        Seq::empty()
    } else {
        hex_only(s.drop_last()) + if is_hex_char(s.last()) {
            seq![upper_char(s.last())]
        } else {
            Seq::empty()
        }
    }
}

/// Twelve hex digits grouped in colon-separated pairs.
pub open spec fn colon_pairs(h: Seq<char>) -> Seq<char> {
    seq![h[0], h[1], ':', h[2], h[3], ':', h[4], h[5], ':', h[6], h[7], ':', h[8], h[9], ':', h[10], h[11]]
}

/// A MAC text in the output form: when the text holds exactly twelve hex
/// digits (whatever separators), those digits upper-cased in colon pairs;
/// otherwise the text unchanged.
pub open spec fn normalized_mac(raw: Seq<char>) -> Seq<char> {
    if hex_only(raw).len() == 12 {
        colon_pairs(hex_only(raw))
    } else {
        raw
    }
}

pub fn is_hex_char_exec(c: char) -> (r: bool)
    ensures
        r == is_hex_char(c),
{
    ('0' <= c && c <= '9') || ('a' <= c && c <= 'f') || ('A' <= c && c <= 'F')
}

/// Brings a MAC text from any of the protocols' forms (colons, dashes or no
/// separator, either case) to `AA:BB:CC:DD:EE:FF`; a text without exactly
/// twelve hex digits is returned unchanged.
pub fn normalize_mac(raw: &str) -> (r: String)
    ensures
        r@ == normalized_mac(raw@),
{
    let chars = str_chars(raw);
    let mut hex: Vec<char> = Vec::new();
    let mut i: usize = 0;
    while i < chars.len()
        invariant
            i <= chars@.len(),
            chars@ == raw@,
            hex@ == hex_only(chars@.subrange(0, i as int)),
        decreases chars@.len() - i,
    {
        let c = chars[i];
        if is_hex_char_exec(c) {
            hex.push(to_upper_char(c));
        }
        proof {
            assert(chars@.subrange(0, i + 1).drop_last() =~= chars@.subrange(0, i as int));
        }
        i += 1;
    }
    assert(chars@.subrange(0, chars@.len() as int) =~= chars@);
    if hex.len() == 12 {
        let mut out: Vec<char> = Vec::new();
        let mut k: usize = 0;
        while k < 6
            invariant
                k <= 6,
                hex@.len() == 12,
                out@.len() == (if k == 0 { 0 } else { 3 * k - 1 }),
                forall|j: int| 0 <= j < out@.len() ==> out@[j] == colon_pairs(hex@)[j],
            decreases 6 - k,
        {
            if k > 0 {
                out.push(':');
            }
            out.push(hex[2 * k]);
            out.push(hex[2 * k + 1]);
            k += 1;
        }
        assert(out@ =~= colon_pairs(hex@));
        string_from_chars(out.as_slice())
    } else {
        raw.to_owned()
    }
}

// ----------------------------------------------------------------------------
// Device table.
// ----------------------------------------------------------------------------

/// Two reports describe the same table entry: the same IP, and in generic
/// mode also the same protocol.
pub open spec fn same_key(force_generic: bool, a: DeviceView, b: DeviceView) -> bool {
    a.ip == b.ip && (force_generic ==> a.protocol == b.protocol)
}

/// The address family of the IP is enabled.
pub open spec fn family_enabled(ip: IpAddr, enable_ipv4: bool, enable_ipv6: bool) -> bool {
    match ip {
        IpAddr::V4(..) => enable_ipv4,
        IpAddr::V6(..) => enable_ipv6,
    }
}

/// Index of the first entry with the key of `d`, searching from `i`.
pub open spec fn find_key(force_generic: bool, entries: Seq<DeviceView>, d: DeviceView, i: int) -> Option<int>
    decreases entries.len() - i,
{
    if i < 0 || i >= entries.len() {
        None
    } else if same_key(force_generic, entries[i], d) {
        Some(i)
    } else {
        find_key(force_generic, entries, d, i + 1)
    }
}

/// The entry that replaces `old` when the newer report `d` wins: all fields
/// of `d` except the IP (kept) and the MAC (the old one when `d` has none).
pub open spec fn merged(old: DeviceView, d: DeviceView) -> DeviceView {
    DeviceView {
        protocol: d.protocol,
        version: d.version,
        ip: old.ip,
        mac: if d.mac.len() == 0 { old.mac } else { d.mac },
        device_type: d.device_type,
        serial: d.serial,
    }
}

/// The table after one report, and the row to print (if any).
/// A report of a disabled family is dropped; a new key is appended; a known
/// key is replaced only by a strictly higher version.
pub open spec fn table_add(
    force_generic: bool,
    entries: Seq<DeviceView>,
    d: DeviceView,
    enable_ipv4: bool,
    enable_ipv6: bool,
) -> (Seq<DeviceView>, Option<DeviceView>) {
    if !family_enabled(d.ip, enable_ipv4, enable_ipv6) {
        (entries, None)
    } else {
        match find_key(force_generic, entries, d, 0) {
            None => (entries.push(d), Some(d)),
            Some(i) => if d.version > entries[i].version {
                (entries.update(i, merged(entries[i], d)), Some(merged(entries[i], d)))
            } else {
                (entries, None)
            },
        }
    }
}

/// The view of an optional device.
pub open spec fn opt_view(r: Option<Device>) -> Option<DeviceView> {
    match r {
        Some(x) => Some(x@),
        None => None,
    }
}

/// No two entries share a key.
pub open spec fn keys_unique(force_generic: bool, entries: Seq<DeviceView>) -> bool {
    forall|i: int, j: int|
        0 <= i < entries.len() && 0 <= j < entries.len() && i != j ==> !same_key(
            force_generic,
            #[trigger] entries[i],
            #[trigger] entries[j],
        )
}

/// Deduplicates discoveries by IP (or by protocol and IP in generic mode),
/// keeps the highest version per key, and remembers discovery order.
pub struct DeviceTable {
    force_generic: bool,
    entries: Vec<Device>,
}

impl DeviceTable {
    /// Whether entries are keyed by protocol and IP.
    pub closed spec fn generic(&self) -> bool {
        self.force_generic
    }

    /// The entries in discovery order.
    pub closed spec fn entries_view(&self) -> Seq<DeviceView> {
        views(self.entries@)
    }

    /// The table's invariant: keys are unique.
    pub open spec fn wf(&self) -> bool {
        keys_unique(self.generic(), self.entries_view())
    }

    /// An empty table.
    pub fn new(force_generic_protocols: bool) -> (t: DeviceTable)
        ensures
            t.generic() == force_generic_protocols,
            t.entries_view() == Seq::<DeviceView>::empty(),
            t.wf(),
    {
        let t = DeviceTable { force_generic: force_generic_protocols, entries: Vec::new() };
        assert(t.entries_view() =~= Seq::<DeviceView>::empty());
        t
    }

    /// Records a report; `Some(row)` when a row is to be printed (a new key,
    /// or a known key updated by a strictly higher version), `None` when the
    /// report is dropped.
    pub fn add(&mut self, device: Device, enable_ipv4: bool, enable_ipv6: bool) -> (r: Option<Device>)
        requires
            old(self).wf(),
        ensures
            final(self).generic() == old(self).generic(),
            (final(self).entries_view(), opt_view(r)) == table_add(
                old(self).generic(),
                old(self).entries_view(),
                device@,
                enable_ipv4,
                enable_ipv6,
            ),
            final(self).wf(),
    {
        let ghost d = device@;
        let ghost before = self.entries_view();
        let family_ok = match device.ip {
            IpAddr::V4(..) => enable_ipv4,
            IpAddr::V6(..) => enable_ipv6,
        };
        if !family_ok {
            return None;
        }
        let mut i: usize = 0;
        let mut found: Option<usize> = None;
        while found.is_none() && i < self.entries.len()
            invariant
                i <= self.entries@.len(),
                self.entries_view() == before,
                self.generic() == old(self).generic(),
                found is None ==> find_key(self.force_generic, before, d, 0) == find_key(self.force_generic, before, d, i as int),
                found matches Some(k) ==> find_key(self.force_generic, before, d, 0) == Some(k as int) && k < self.entries@.len(),
                device@ == d,
            decreases self.entries@.len() - i + (if found is None { 1int } else { 0int }),
        {
            let e = &self.entries[i];
            assert(before[i as int] == e@);
            let same = e.ip == device.ip && (!self.force_generic || e.protocol == device.protocol);
            if same {
                found = Some(i);
            } else {
                i += 1;
            }
        }
        match found {
            None => {
                assert(find_key(self.force_generic, before, d, self.entries@.len() as int) is None);
                let row = device.duplicate();
                self.entries.push(device);
                proof {
                    assert(self.entries_view() =~= before.push(d));
                    lemma_find_none_distinct(self.force_generic, before, d, 0);
                    assert(keys_unique(self.force_generic, before.push(d)));
                }
                Some(row)
            },
            Some(k) => {
                let existing_version = self.entries[k].version;
                if device.version > existing_version {
                    let mac = if device.mac.as_str().is_empty() {
                        self.entries[k].mac.clone()
                    } else {
                        device.mac
                    };
                    let ip = self.entries[k].ip;
                    let updated = Device {
                        protocol: device.protocol,
                        version: device.version,
                        ip,
                        mac,
                        device_type: device.device_type,
                        serial: device.serial,
                    };
                    let row = updated.duplicate();
                    self.entries.set(k, updated);
                    proof {
                        assert(self.entries_view() =~= before.update(k as int, merged(before[k as int], d)));
                        lemma_find_some(self.force_generic, before, d, 0);
                        assert(keys_unique(self.force_generic, self.entries_view())) by {
                            let s = self.entries_view();
                            assert forall|a: int, b: int|
                                0 <= a < s.len() && 0 <= b < s.len() && a != b implies !same_key(
                                    self.force_generic, #[trigger] s[a], #[trigger] s[b]) by {
                                if a == k {
                                    assert(same_key(self.force_generic, s[a], s[b]) == same_key(self.force_generic, before[a], before[b]));
                                } else if b == k {
                                    assert(same_key(self.force_generic, s[a], s[b]) == same_key(self.force_generic, before[a], before[b]));
                                } else {
                                    assert(s[a] == before[a] && s[b] == before[b]);
                                }
                            }
                        }
                    }
                    Some(row)
                } else {
                    None
                }
            },
        }
    }

    /// All entries in discovery order.
    pub fn all(&self) -> (r: Vec<&Device>)
        ensures
            r@.len() == self.entries_view().len(),
            forall|i: int| 0 <= i < r@.len() ==> (#[trigger] r@[i])@ == self.entries_view()[i],
    {
        let mut r: Vec<&Device> = Vec::new();
        let mut i: usize = 0;
        while i < self.entries.len()
            invariant
                i <= self.entries@.len(),
                r@.len() == i,
                forall|j: int| 0 <= j < i ==> (#[trigger] r@[j])@ == self.entries_view()[j],
            decreases self.entries@.len() - i,
        {
            r.push(&self.entries[i]);
            i += 1;
        }
        r
    }

    pub fn len(&self) -> (n: usize)
        ensures
            n == self.entries_view().len(),
    {
        self.entries.len()
    }

    pub fn is_empty(&self) -> (b: bool)
        ensures
            b == (self.entries_view().len() == 0),
    {
        self.entries.len() == 0
    }
}

proof fn lemma_find_some(fg: bool, s: Seq<DeviceView>, d: DeviceView, i: int)
    requires
        0 <= i,
    ensures
        find_key(fg, s, d, i) matches Some(k) ==> i <= k < s.len() && same_key(fg, s[k], d),
    decreases s.len() - i,
{
    if 0 <= i < s.len() && !same_key(fg, s[i], d) {
        lemma_find_some(fg, s, d, i + 1);
    }
}

proof fn lemma_find_none_distinct(fg: bool, s: Seq<DeviceView>, d: DeviceView, i: int)
    requires
        0 <= i,
        find_key(fg, s, d, i) is None,
    ensures
        forall|j: int| i <= j < s.len() ==> !same_key(fg, #[trigger] s[j], d),
    decreases s.len() - i,
{
    if i < s.len() {
        lemma_find_none_distinct(fg, s, d, i + 1);
    }
}

/// Reporting the same device twice in a row prints it at most once: the
/// second report finds its own key with an equal version and is dropped.
pub proof fn law_repeat_report_dropped(
    fg: bool,
    entries: Seq<DeviceView>,
    d: DeviceView,
    enable_ipv4: bool,
    enable_ipv6: bool,
)
    requires
        keys_unique(fg, entries),
    ensures
        table_add(fg, table_add(fg, entries, d, enable_ipv4, enable_ipv6).0, d, enable_ipv4, enable_ipv6)
            == (table_add(fg, entries, d, enable_ipv4, enable_ipv6).0, None::<DeviceView>),
{
    let s1 = table_add(fg, entries, d, enable_ipv4, enable_ipv6).0;
    if family_enabled(d.ip, enable_ipv4, enable_ipv6) {
        lemma_find_some(fg, entries, d, 0);
        match find_key(fg, entries, d, 0) {
            None => {
                lemma_find_none_distinct(fg, entries, d, 0);
                lemma_find_first(fg, s1, d, entries.len() as int);
            },
            Some(i) => {
                if d.version > entries[i].version {
                    lemma_find_unique(fg, entries, d, i);
                    lemma_find_first(fg, s1, d, i);
                } else {
                    lemma_find_unique(fg, entries, d, i);
                }
            },
        }
    }
}

/// An entry is never removed, moved, re-keyed or lowered in version: after
/// any report, every earlier entry keeps its position and key, and its
/// version does not decrease; a MAC it had is never lost.
pub proof fn law_entries_persist(
    fg: bool,
    entries: Seq<DeviceView>,
    d: DeviceView,
    enable_ipv4: bool,
    enable_ipv6: bool,
)
    ensures
        table_add(fg, entries, d, enable_ipv4, enable_ipv6).0.len() >= entries.len(),
        forall|j: int|
            0 <= j < entries.len() ==> {
                let after = #[trigger] table_add(fg, entries, d, enable_ipv4, enable_ipv6).0[j];
                &&& same_key(fg, after, entries[j])
                &&& after.ip == entries[j].ip
                &&& after.version >= entries[j].version
                &&& (entries[j].mac.len() > 0 ==> after.mac.len() > 0)
            },
{
    lemma_find_some(fg, entries, d, 0);
}

/// Keys stay unique under any report.
pub proof fn law_keys_stay_unique(
    fg: bool,
    entries: Seq<DeviceView>,
    d: DeviceView,
    enable_ipv4: bool,
    enable_ipv6: bool,
)
    requires
        keys_unique(fg, entries),
    ensures
        keys_unique(fg, table_add(fg, entries, d, enable_ipv4, enable_ipv6).0),
{
    if family_enabled(d.ip, enable_ipv4, enable_ipv6) {
        lemma_find_some(fg, entries, d, 0);
        match find_key(fg, entries, d, 0) {
            None => {
                lemma_find_none_distinct(fg, entries, d, 0);
                let s1 = entries.push(d);
                assert forall|a: int, b: int|
                    0 <= a < s1.len() && 0 <= b < s1.len() && a != b implies !same_key(fg, #[trigger] s1[a], #[trigger] s1[b]) by {
                    if a == entries.len() {
                        assert(!same_key(fg, entries[b], d));
                    } else if b == entries.len() {
                        assert(!same_key(fg, entries[a], d));
                    }
                }
            },
            Some(k) => {
                let s1 = table_add(fg, entries, d, enable_ipv4, enable_ipv6).0;
                assert forall|a: int, b: int|
                    0 <= a < s1.len() && 0 <= b < s1.len() && a != b implies !same_key(fg, #[trigger] s1[a], #[trigger] s1[b]) by {
                    assert(same_key(fg, s1[a], s1[b]) == same_key(fg, entries[a], entries[b]));
                }
            },
        }
    }
}

/// A report whose address family is disabled changes nothing and prints nothing.
pub proof fn law_disabled_family_ignored(
    fg: bool,
    entries: Seq<DeviceView>,
    d: DeviceView,
    enable_ipv4: bool,
    enable_ipv6: bool,
)
    requires
        !family_enabled(d.ip, enable_ipv4, enable_ipv6),
    ensures
        table_add(fg, entries, d, enable_ipv4, enable_ipv6) == (entries, None::<DeviceView>),
{
}

/// A printed row is exactly what the table now holds for the report's key.
pub proof fn law_printed_row_is_entry(
    fg: bool,
    entries: Seq<DeviceView>,
    d: DeviceView,
    enable_ipv4: bool,
    enable_ipv6: bool,
)
    ensures
        table_add(fg, entries, d, enable_ipv4, enable_ipv6).1 matches Some(row) ==> exists|j: int|
            0 <= j < table_add(fg, entries, d, enable_ipv4, enable_ipv6).0.len()
                && #[trigger] table_add(fg, entries, d, enable_ipv4, enable_ipv6).0[j] == row
                && same_key(fg, row, d),
{
    lemma_find_some(fg, entries, d, 0);
    let (s1, r) = table_add(fg, entries, d, enable_ipv4, enable_ipv6);
    if let Some(row) = r {
        match find_key(fg, entries, d, 0) {
            None => {
                assert(s1[entries.len() as int] == row);
            },
            Some(k) => {
                assert(s1[k] == row);
            },
        }
    }
}

/// A report with a higher version than the entry for its key replaces it;
/// a report whose version is not higher never does (versions only grow).
pub proof fn law_higher_version_wins(
    fg: bool,
    entries: Seq<DeviceView>,
    d: DeviceView,
    enable_ipv4: bool,
    enable_ipv6: bool,
    k: int,
)
    requires
        keys_unique(fg, entries),
        family_enabled(d.ip, enable_ipv4, enable_ipv6),
        0 <= k < entries.len(),
        same_key(fg, entries[k], d),
    ensures
        d.version > entries[k].version ==> table_add(fg, entries, d, enable_ipv4, enable_ipv6)
            == (entries.update(k, merged(entries[k], d)), Some(merged(entries[k], d))),
        d.version <= entries[k].version ==> table_add(fg, entries, d, enable_ipv4, enable_ipv6)
            == (entries, None::<DeviceView>),
{
    lemma_find_some(fg, entries, d, 0);
    lemma_find_exists(fg, entries, d, 0, k);
    let i = find_key(fg, entries, d, 0)->0;
    if i != k {
        assert(same_key(fg, entries[i], entries[k]));
    }
}

proof fn lemma_find_exists(fg: bool, s: Seq<DeviceView>, d: DeviceView, i: int, k: int)
    requires
        0 <= i <= k < s.len(),
        same_key(fg, s[k], d),
    ensures
        find_key(fg, s, d, i) is Some,
    decreases k - i,
{
    if !same_key(fg, s[i], d) {
        lemma_find_exists(fg, s, d, i + 1, k);
    }
}

/// With unique keys, the entry found for `d` is the only one with its key.
proof fn lemma_find_unique(fg: bool, s: Seq<DeviceView>, d: DeviceView, i: int)
    requires
        keys_unique(fg, s),
        0 <= i < s.len(),
        same_key(fg, s[i], d),
    ensures
        forall|j: int| 0 <= j < s.len() && j != i ==> !same_key(fg, #[trigger] s[j], d),
{
    assert forall|j: int| 0 <= j < s.len() && j != i implies !same_key(fg, #[trigger] s[j], d) by {
        assert(!same_key(fg, s[i], s[j]));
    }
}

/// If position `i` is the only one with the key of `d`, the search finds it.
proof fn lemma_find_first(fg: bool, s: Seq<DeviceView>, d: DeviceView, i: int)
    requires
        0 <= i < s.len(),
        same_key(fg, s[i], d),
        forall|j: int| 0 <= j < i ==> !same_key(fg, #[trigger] s[j], d),
    ensures
        find_key(fg, s, d, 0) == Some(i),
{
    lemma_find_from(fg, s, d, 0, i);
}

proof fn lemma_find_from(fg: bool, s: Seq<DeviceView>, d: DeviceView, j: int, i: int)
    requires
        0 <= j <= i < s.len(),
        same_key(fg, s[i], d),
        forall|m: int| 0 <= m < i ==> !same_key(fg, #[trigger] s[m], d),
    ensures
        find_key(fg, s, d, j) == Some(i),
    decreases i - j,
{
    if j < i {
        assert(!same_key(fg, s[j], d));
        lemma_find_from(fg, s, d, j + 1, i);
    }
}

// ----------------------------------------------------------------------------
// MAC normalisation is idempotent.
// ----------------------------------------------------------------------------

proof fn lemma_hex_only_append(a: Seq<char>, b: Seq<char>)
    ensures
        hex_only(a + b) == hex_only(a) + hex_only(b),
    decreases b.len(),
{
    if b.len() == 0 {
        assert(a + b =~= a);
        assert(hex_only(a) + hex_only(b) =~= hex_only(a));
    } else {
        lemma_hex_only_append(a, b.drop_last());
        assert((a + b).drop_last() =~= a + b.drop_last());
        assert((a + b).last() == b.last());
        let t = if is_hex_char(b.last()) { seq![upper_char(b.last())] } else { Seq::<char>::empty() };
        assert(hex_only(a) + hex_only(b.drop_last()) + t =~= hex_only(a) + (hex_only(b.drop_last()) + t));
    }
}

proof fn lemma_hex_only_single(x: char)
    ensures
        hex_only(seq![x]) == (if is_hex_char(x) { seq![upper_char(x)] } else { Seq::<char>::empty() }),
{
    assert(seq![x].drop_last() =~= Seq::<char>::empty());
    assert(seq![x].last() == x);
    assert(hex_only(Seq::<char>::empty()) == Seq::<char>::empty());
    let t = if is_hex_char(x) { seq![upper_char(x)] } else { Seq::<char>::empty() };
    assert(Seq::<char>::empty() + t =~= t);
}

/// Upper-case hex digit: a hex digit that upper-casing leaves alone.
pub open spec fn upper_hex(c: char) -> bool {
    is_hex_char(c) && upper_char(c) == c
}

proof fn lemma_hex_only_upper(s: Seq<char>)
    ensures
        forall|i: int| 0 <= i < hex_only(s).len() ==> upper_hex(#[trigger] hex_only(s)[i]),
    decreases s.len(),
{
    if s.len() > 0 {
        lemma_hex_only_upper(s.drop_last());
        let c = s.last();
        let h0 = hex_only(s.drop_last());
        let t = if is_hex_char(c) { seq![upper_char(c)] } else { Seq::<char>::empty() };
        assert(hex_only(s) == h0 + t);
        if is_hex_char(c) {
            let u = upper_char(c);
            if 'a' <= c && c <= 'f' {
                assert('A' <= u && u <= 'F');
            }
            assert(upper_hex(u));
        }
        assert forall|i: int| 0 <= i < hex_only(s).len() implies upper_hex(#[trigger] hex_only(s)[i]) by {
            if i < h0.len() {
                assert(hex_only(s)[i] == h0[i]);
            } else {
                assert(hex_only(s)[i] == t[i - h0.len()]);
            }
        }
    }
}

proof fn lemma_hex_only_of_upper_single(x: char)
    requires
        upper_hex(x),
    ensures
        hex_only(seq![x]) == seq![x],
{
    lemma_hex_only_single(x);
}

/// A text with exactly twelve hex digits becomes those digits, upper-cased,
/// in six colon-separated pairs (17 characters); any other text is kept; and
/// normalising twice gives what normalising once gives.
pub proof fn law_normalize_mac_idempotent(raw: Seq<char>)
    ensures
        hex_only(raw).len() == 12 ==> normalized_mac(raw) == colon_pairs(hex_only(raw)) && normalized_mac(raw).len() == 17,
        hex_only(raw).len() != 12 ==> normalized_mac(raw) == raw,
        normalized_mac(normalized_mac(raw)) == normalized_mac(raw),
{
    let h = hex_only(raw);
    if h.len() == 12 {
        lemma_hex_only_upper(raw);
        let c = colon_pairs(h);
        let colon = seq![':'];
        assert(!is_hex_char(':'));
        lemma_hex_only_single(':');
        let pair = |k: int| seq![h[2 * k], h[2 * k + 1]];
        assert forall|k: int| 0 <= k < 6 implies hex_only(#[trigger] pair(k)) == pair(k) by {
            assert(upper_hex(h[2 * k]));
            assert(upper_hex(h[2 * k + 1]));
            lemma_hex_only_of_upper_single(h[2 * k]);
            lemma_hex_only_of_upper_single(h[2 * k + 1]);
            assert(pair(k) =~= seq![h[2 * k]] + seq![h[2 * k + 1]]);
            lemma_hex_only_append(seq![h[2 * k]], seq![h[2 * k + 1]]);
        }
        let p01 = pair(0) + colon;
        let p1 = p01 + pair(1);
        let p12 = p1 + colon;
        let p2 = p12 + pair(2);
        let p23 = p2 + colon;
        let p3 = p23 + pair(3);
        let p34 = p3 + colon;
        let p4 = p34 + pair(4);
        let p45 = p4 + colon;
        let p5 = p45 + pair(5);
        assert(c =~= p5);
        lemma_hex_only_append(pair(0), colon);
        lemma_hex_only_append(p01, pair(1));
        lemma_hex_only_append(p1, colon);
        lemma_hex_only_append(p12, pair(2));
        lemma_hex_only_append(p2, colon);
        lemma_hex_only_append(p23, pair(3));
        lemma_hex_only_append(p3, colon);
        lemma_hex_only_append(p34, pair(4));
        lemma_hex_only_append(p4, colon);
        lemma_hex_only_append(p45, pair(5));
        assert(hex_only(c) =~= h);
    }
}

proof fn lemma_find_key_in_range(force_generic: bool, entries: Seq<DeviceView>, d: DeviceView, i: int, k: int)
    requires
        find_key(force_generic, entries, d, i) == Some(k),
    ensures
        0 <= i <= k < entries.len(),
    decreases entries.len() - i,
{
    if 0 <= i < entries.len() && !same_key(force_generic, entries[i], d) {
        lemma_find_key_in_range(force_generic, entries, d, i + 1, k);
    }
}

/// A report that wins over an entry (same key, strictly higher version)
/// replaces the entry's MAC by its own when it has one and keeps the old
/// MAC when it has none; the address stays the entry's, and every other
/// field is the report's; the printed row is the new entry.
pub proof fn law_update_takes_new_mac(force_generic: bool, entries: Seq<DeviceView>, d: DeviceView, e4: bool, e6: bool, i: int)
    requires
        family_enabled(d.ip, e4, e6),
        find_key(force_generic, entries, d, 0) == Some(i),
        d.version > entries[i].version,
    ensures
        ({
            let (after, row) = table_add(force_generic, entries, d, e4, e6);
            &&& after.len() == entries.len()
            &&& row == Some(after[i])
            &&& d.mac.len() > 0 ==> after[i].mac == d.mac
            &&& d.mac.len() == 0 ==> after[i].mac == entries[i].mac
            &&& after[i].ip == entries[i].ip
            &&& after[i].protocol == d.protocol && after[i].version == d.version
            &&& after[i].device_type == d.device_type && after[i].serial == d.serial
            &&& forall|j: int| 0 <= j < entries.len() && j != i ==> after[j] == entries[j]
        }),
{
    lemma_find_key_in_range(force_generic, entries, d, 0, i);
}

} // verus!
