//! The effective configuration of a scan: built-in defaults, overridden by
//! the keys a configuration file sets, overridden by the command-line switches.

use vstd::prelude::*;
use crate::cli::ScanArgs;
use crate::config::{Config, Error, default_config};
use crate::text::{str_chars, string_from_chars};

verus! {

/// The keys a configuration file may set; an absent key keeps the default.
#[derive(Debug, Clone, Copy, PartialEq, Eq, Structural)]
pub struct PartialConfig {
    pub enable_ipv4: Option<bool>,
    pub enable_ipv6: Option<bool>,
    pub force_link_local: Option<bool>,
    pub force_zeroconf: Option<bool>,
    pub force_generic_protocols: Option<bool>,
    pub debug_mode: Option<bool>,
    pub port_sharing: Option<bool>,
    pub onvif_verbatim: Option<bool>,
    pub dahua_net_scan: Option<bool>,
    pub arp_enabled: Option<bool>,
}

pub open spec fn or_default(v: Option<bool>, d: bool) -> bool {
    match v {
        Some(x) => x,
        None => d,
    }
}

/// The defaults with the keys the file sets.
pub open spec fn merged(p: PartialConfig) -> Config {
    let d = default_config();
    Config {
        enable_ipv4: or_default(p.enable_ipv4, d.enable_ipv4),
        enable_ipv6: or_default(p.enable_ipv6, d.enable_ipv6),
        force_link_local: or_default(p.force_link_local, d.force_link_local),
        force_zeroconf: or_default(p.force_zeroconf, d.force_zeroconf),
        force_generic_protocols: or_default(p.force_generic_protocols, d.force_generic_protocols),
        debug_mode: or_default(p.debug_mode, d.debug_mode),
        port_sharing: or_default(p.port_sharing, d.port_sharing),
        onvif_verbatim: or_default(p.onvif_verbatim, d.onvif_verbatim),
        dahua_net_scan: or_default(p.dahua_net_scan, d.dahua_net_scan),
        arp_enabled: or_default(p.arp_enabled, d.arp_enabled),
    }
}

impl PartialConfig {
    /// The configuration these keys give over the built-in defaults.
    pub fn merge(self) -> (c: Config)
        ensures
            c == merged(self),
    {
        let mut c = Config::default();
        if let Some(v) = self.enable_ipv4 {
            c.enable_ipv4 = v;
        }
        if let Some(v) = self.enable_ipv6 {
            c.enable_ipv6 = v;
        }
        if let Some(v) = self.force_link_local {
            c.force_link_local = v;
        }
        if let Some(v) = self.force_zeroconf {
            c.force_zeroconf = v;
        }
        if let Some(v) = self.force_generic_protocols {
            c.force_generic_protocols = v;
        }
        if let Some(v) = self.debug_mode {
            c.debug_mode = v;
        }
        if let Some(v) = self.port_sharing {
            c.port_sharing = v;
        }
        if let Some(v) = self.onvif_verbatim {
            c.onvif_verbatim = v;
        }
        if let Some(v) = self.dahua_net_scan {
            c.dahua_net_scan = v;
        }
        if let Some(v) = self.arp_enabled {
            c.arp_enabled = v;
        }
        c
    }
}

impl Default for PartialConfig {
    /// No key set.
    fn default() -> (p: Self)
        ensures
            merged(p) == default_config(),
    {
        PartialConfig {
            enable_ipv4: None,
            enable_ipv6: None,
            force_link_local: None,
            force_zeroconf: None,
            force_generic_protocols: None,
            debug_mode: None,
            port_sharing: None,
            onvif_verbatim: None,
            dahua_net_scan: None,
            arp_enabled: None,
        }
    }
}

/// A field after a switch pair: on wins, then off, else unchanged.
pub open spec fn switched(cur: bool, on: bool, off: bool) -> bool {
    if on {
        true
    } else if off {
        false
    } else {
        cur
    }
}

/// The message for a pair given together.
pub open spec fn conflict_text(on_flag: Seq<char>, off_flag: Seq<char>) -> Seq<char> {
    "conflicting flags: "@ + on_flag + " and "@ + off_flag
}

/// Applies one switch pair to a field; both switches at once is an error
/// naming the two flags, and leaves the field unchanged.
pub fn apply_bool(field: &mut bool, on: bool, off: bool, on_flag: &str, off_flag: &str) -> (r: Result<(), Error>)
    ensures
        match r {
            Ok(()) => !(on && off) && *final(field) == switched(*old(field), on, off),
            Err(e) => on && off && *final(field) == *old(field) && (e matches Error::Config(m) && m@ == conflict_text(on_flag@, off_flag@)),
        },
{
    if on && off {
        let mut t = str_chars("conflicting flags: ");
        let mut x = str_chars(on_flag);
        let mut y = str_chars(" and ");
        let mut z = str_chars(off_flag);
        t.append(&mut x);
        t.append(&mut y);
        t.append(&mut z);
        return Err(Error::Config(string_from_chars(t.as_slice())));
    }
    if on {
        *field = true;
    } else if off {
        *field = false;
    }
    Ok(())
}

/// The `k`-th switch pair of the arguments (on, off), in the order
/// ipv4, ipv6, link-local, zeroconf, generic protocols, debug, port sharing,
/// ONVIF verbatim, Dahua net scan, ARP.
pub open spec fn switch_pair(a: ScanArgs, k: int) -> (bool, bool) {
    if k == 0 {
        (a.enable_ipv4, a.disable_ipv4)
    } else if k == 1 {
        (a.enable_ipv6, a.disable_ipv6)
    } else if k == 2 {
        (a.force_link_local, a.no_force_link_local)
    } else if k == 3 {
        (a.force_zeroconf, a.no_force_zeroconf)
    } else if k == 4 {
        (a.force_generic_protocols, a.no_force_generic_protocols)
    } else if k == 5 {
        (a.debug, a.no_debug)
    } else if k == 6 {
        (a.port_sharing, a.no_port_sharing)
    } else if k == 7 {
        (a.onvif_verbatim, a.no_onvif_verbatim)
    } else if k == 8 {
        (a.dahua_net_scan, a.no_dahua_net_scan)
    } else {
        (a.arp, a.no_arp)
    }
}

/// The flag names of the `k`-th pair.
pub open spec fn pair_flags(k: int) -> (Seq<char>, Seq<char>) {
    if k == 0 {
        ("--enable-ipv4"@, "--disable-ipv4"@)
    } else if k == 1 {
        ("--enable-ipv6"@, "--disable-ipv6"@)
    } else if k == 2 {
        ("--force-link-local"@, "--no-force-link-local"@)
    } else if k == 3 {
        ("--force-zeroconf"@, "--no-force-zeroconf"@)
    } else if k == 4 {
        ("--force-generic-protocols"@, "--no-force-generic-protocols"@)
    } else if k == 5 {
        ("--debug"@, "--no-debug"@)
    } else if k == 6 {
        ("--port-sharing"@, "--no-port-sharing"@)
    } else if k == 7 {
        ("--onvif-verbatim"@, "--no-onvif-verbatim"@)
    } else if k == 8 {
        ("--dahua-net-scan"@, "--no-dahua-net-scan"@)
    } else {
        ("--arp"@, "--no-arp"@)
    }
}

/// The first pair at or after `k` given with both switches, or 10 when there is none.
pub open spec fn conflict_from(a: ScanArgs, k: int) -> int
    decreases 10 - k,
{
    if k >= 10 || k < 0 {
        10
    } else if switch_pair(a, k).0 && switch_pair(a, k).1 {
        k
    } else {
        conflict_from(a, k + 1)
    }
}

/// The first pair given with both switches, or 10 when there is none.
pub open spec fn first_conflict(a: ScanArgs) -> int {
    conflict_from(a, 0)
}

/// The configuration with the pairs before the `k`-th applied.
pub open spec fn flags_applied(c: Config, a: ScanArgs, k: int) -> Config {
    Config {
        enable_ipv4: if 0 < k { switched(c.enable_ipv4, a.enable_ipv4, a.disable_ipv4) } else { c.enable_ipv4 },
        enable_ipv6: if 1 < k { switched(c.enable_ipv6, a.enable_ipv6, a.disable_ipv6) } else { c.enable_ipv6 },
        force_link_local: if 2 < k { switched(c.force_link_local, a.force_link_local, a.no_force_link_local) } else { c.force_link_local },
        force_zeroconf: if 3 < k { switched(c.force_zeroconf, a.force_zeroconf, a.no_force_zeroconf) } else { c.force_zeroconf },
        force_generic_protocols: if 4 < k { switched(c.force_generic_protocols, a.force_generic_protocols, a.no_force_generic_protocols) } else { c.force_generic_protocols },
        debug_mode: if 5 < k { switched(c.debug_mode, a.debug, a.no_debug) } else { c.debug_mode },
        port_sharing: if 6 < k { switched(c.port_sharing, a.port_sharing, a.no_port_sharing) } else { c.port_sharing },
        onvif_verbatim: if 7 < k { switched(c.onvif_verbatim, a.onvif_verbatim, a.no_onvif_verbatim) } else { c.onvif_verbatim },
        dahua_net_scan: if 8 < k { switched(c.dahua_net_scan, a.dahua_net_scan, a.no_dahua_net_scan) } else { c.dahua_net_scan },
        arp_enabled: if 9 < k { switched(c.arp_enabled, a.arp, a.no_arp) } else { c.arp_enabled },
    }
}

/// The `k`-th switchable field of a configuration (same order as the pairs).
pub open spec fn field_of(c: Config, k: int) -> bool {
    if k == 0 {
        c.enable_ipv4
    } else if k == 1 {
        c.enable_ipv6
    } else if k == 2 {
        c.force_link_local
    } else if k == 3 {
        c.force_zeroconf
    } else if k == 4 {
        c.force_generic_protocols
    } else if k == 5 {
        c.debug_mode
    } else if k == 6 {
        c.port_sharing
    } else if k == 7 {
        c.onvif_verbatim
    } else if k == 8 {
        c.dahua_net_scan
    } else {
        c.arp_enabled
    }
}

fn get_field(c: &Config, k: usize) -> (v: bool)
    requires
        k < 10,
    ensures
        v == field_of(*c, k as int),
{
    match k {
        0 => c.enable_ipv4,
        1 => c.enable_ipv6,
        2 => c.force_link_local,
        3 => c.force_zeroconf,
        4 => c.force_generic_protocols,
        5 => c.debug_mode,
        6 => c.port_sharing,
        7 => c.onvif_verbatim,
        8 => c.dahua_net_scan,
        _ => c.arp_enabled,
    }
}

fn set_field(c: &mut Config, k: usize, v: bool)
    requires
        k < 10,
    ensures
        forall|j: int| 0 <= j < 10 && j != k ==> field_of(*final(c), j) == field_of(*old(c), j),
        field_of(*final(c), k as int) == v,
{
    match k {
        0 => {
            c.enable_ipv4 = v;
        },
        1 => {
            c.enable_ipv6 = v;
        },
        2 => {
            c.force_link_local = v;
        },
        3 => {
            c.force_zeroconf = v;
        },
        4 => {
            c.force_generic_protocols = v;
        },
        5 => {
            c.debug_mode = v;
        },
        6 => {
            c.port_sharing = v;
        },
        7 => {
            c.onvif_verbatim = v;
        },
        8 => {
            c.dahua_net_scan = v;
        },
        _ => {
            c.arp_enabled = v;
        },
    }
}

fn pair_at(a: &ScanArgs, k: usize) -> (r: (bool, bool, &'static str, &'static str))
    requires
        k < 10,
    ensures
        (r.0, r.1) == switch_pair(*a, k as int),
        (r.2@, r.3@) == pair_flags(k as int),
{
    match k {
        0 => (a.enable_ipv4, a.disable_ipv4, "--enable-ipv4", "--disable-ipv4"),
        1 => (a.enable_ipv6, a.disable_ipv6, "--enable-ipv6", "--disable-ipv6"),
        2 => (a.force_link_local, a.no_force_link_local, "--force-link-local", "--no-force-link-local"),
        3 => (a.force_zeroconf, a.no_force_zeroconf, "--force-zeroconf", "--no-force-zeroconf"),
        4 => (a.force_generic_protocols, a.no_force_generic_protocols, "--force-generic-protocols", "--no-force-generic-protocols"),
        5 => (a.debug, a.no_debug, "--debug", "--no-debug"),
        6 => (a.port_sharing, a.no_port_sharing, "--port-sharing", "--no-port-sharing"),
        7 => (a.onvif_verbatim, a.no_onvif_verbatim, "--onvif-verbatim", "--no-onvif-verbatim"),
        8 => (a.dahua_net_scan, a.no_dahua_net_scan, "--dahua-net-scan", "--no-dahua-net-scan"),
        _ => (a.arp, a.no_arp, "--arp", "--no-arp"),
    }
}

/// The `j`-th field once the pairs before the `k`-th are applied.
pub open spec fn applied_field(c: Config, a: ScanArgs, k: int, j: int) -> bool {
    if j < k {
        switched(field_of(c, j), switch_pair(a, j).0, switch_pair(a, j).1)
    } else {
        field_of(c, j)
    }
}

proof fn lemma_applied_fields(c: Config, a: ScanArgs, k: int)
    ensures
        forall|j: int| 0 <= j < 10 ==> field_of(flags_applied(c, a, k), j) == applied_field(c, a, k, j),
{
    assert forall|j: int| 0 <= j < 10 implies field_of(flags_applied(c, a, k), j) == applied_field(c, a, k, j) by {
        if j == 0 {
        } else if j == 1 {
        } else if j == 2 {
        } else if j == 3 {
        } else if j == 4 {
        } else if j == 5 {
        } else if j == 6 {
        } else if j == 7 {
        } else if j == 8 {
        } else {
        }
    }
}

proof fn lemma_config_fields(c: Config, d: Config)
    requires
        forall|j: int| 0 <= j < 10 ==> field_of(c, j) == field_of(d, j),
    ensures
        c == d,
{
    assert(field_of(c, 0) == field_of(d, 0));
    assert(field_of(c, 1) == field_of(d, 1));
    assert(field_of(c, 2) == field_of(d, 2));
    assert(field_of(c, 3) == field_of(d, 3));
    assert(field_of(c, 4) == field_of(d, 4));
    assert(field_of(c, 5) == field_of(d, 5));
    assert(field_of(c, 6) == field_of(d, 6));
    assert(field_of(c, 7) == field_of(d, 7));
    assert(field_of(c, 8) == field_of(d, 8));
    assert(field_of(c, 9) == field_of(d, 9));
}

/// Applies the ten switch pairs in order. A pair given with both switches
/// stops there with an error naming its flags; the pairs before it are applied.
pub fn apply_flags(config: &mut Config, a: &ScanArgs) -> (r: Result<(), Error>)
    ensures
        match r {
            Ok(()) => first_conflict(*a) == 10 && *final(config) == flags_applied(*old(config), *a, 10),
            Err(e) => first_conflict(*a) < 10 && *final(config) == flags_applied(*old(config), *a, first_conflict(*a))
                && (e matches Error::Config(m) && m@ == conflict_text(pair_flags(first_conflict(*a)).0, pair_flags(first_conflict(*a)).1)),
        },
{
    let ghost c0 = *config;
    let mut k: usize = 0;
    while k < 10
        invariant
            k <= 10,
            c0 == *old(config),
            conflict_from(*a, 0) == conflict_from(*a, k as int),
            forall|j: int| 0 <= j < 10 ==> field_of(*config, j) == applied_field(c0, *a, k as int, j),
        decreases 10 - k,
    {
        let (on, off, on_flag, off_flag) = pair_at(a, k);
        let mut v = get_field(config, k);
        let r = apply_bool(&mut v, on, off, on_flag, off_flag);
        if let Err(e) = r {
            assert(first_conflict(*a) == k);
            proof {
                lemma_applied_fields(c0, *a, k as int);
                lemma_config_fields(*config, flags_applied(c0, *a, k as int));
            }
            return Err(e);
        }
        set_field(config, k, v);
        k += 1;
    }
    proof {
        lemma_applied_fields(c0, *a, 10);
        lemma_config_fields(*config, flags_applied(c0, *a, 10));
    }
    Ok(())
}


/// The value a configuration file gives the `k`-th switchable field, if it sets it.
pub open spec fn file_field(p: PartialConfig, k: int) -> Option<bool> {
    if k == 0 {
        p.enable_ipv4
    } else if k == 1 {
        p.enable_ipv6
    } else if k == 2 {
        p.force_link_local
    } else if k == 3 {
        p.force_zeroconf
    } else if k == 4 {
        p.force_generic_protocols
    } else if k == 5 {
        p.debug_mode
    } else if k == 6 {
        p.port_sharing
    } else if k == 7 {
        p.onvif_verbatim
    } else if k == 8 {
        p.dahua_net_scan
    } else {
        p.arp_enabled
    }
}

/// The configuration before the switches: the file's keys over the
/// defaults, or the defaults where there is no file.
pub open spec fn base_config(file: Option<PartialConfig>) -> Config {
    match file {
        Some(p) => merged(p),
        None => default_config(),
    }
}

/// The effective configuration: the switches over the file over the
/// defaults; a pair given with both switches is an error naming its flags.
pub open spec fn effective(file: Option<PartialConfig>, a: ScanArgs) -> Result<Config, Seq<char>> {
    let k = first_conflict(a);
    if k < 10 {
        Err(conflict_text(pair_flags(k).0, pair_flags(k).1))
    } else {
        Ok(flags_applied(base_config(file), a, 10))
    }
}

/// The configuration of a scan, from the keys of the configuration file that
/// was found (if one was) and the command-line switches.
pub fn effective_config(file: Option<PartialConfig>, args: &ScanArgs) -> (r: Result<Config, Error>)
    ensures
        match effective(file, *args) {
            Ok(c) => r == Ok::<Config, Error>(c),
            Err(m) => (r matches Err(Error::Config(msg)) && msg@ == m),
        },
{
    let mut config = match file {
        Some(p) => p.merge(),
        None => Config::default(),
    };
    match apply_flags(&mut config, args) {
        Ok(()) => Ok(config),
        Err(e) => Err(e),
    }
}

/// A pair is in conflict exactly when both of its switches are given.
pub proof fn lemma_conflict_from(a: ScanArgs, k: int)
    requires
        0 <= k <= 10,
    ensures
        conflict_from(a, k) < 10 <==> exists|j: int| k <= j < 10 && #[trigger] switch_pair(a, j).0 && switch_pair(a, j).1,
        conflict_from(a, k) < 10 ==> k <= conflict_from(a, k),
    decreases 10 - k,
{
    if k < 10 {
        lemma_conflict_from(a, k + 1);
    }
}

/// A field's value from the file if the file sets it, else its default.
pub open spec fn file_or_default(file: Option<PartialConfig>, j: int) -> bool {
    match file {
        Some(p) => match file_field(p, j) {
            Some(v) => v,
            None => field_of(default_config(), j),
        },
        None => field_of(default_config(), j),
    }
}

proof fn lemma_base_field(file: Option<PartialConfig>, j: int)
    requires
        0 <= j < 10,
    ensures
        field_of(base_config(file), j) == file_or_default(file, j),
{
    if j == 0 {
    } else if j == 1 {
    } else if j == 2 {
    } else if j == 3 {
    } else if j == 4 {
    } else if j == 5 {
    } else if j == 6 {
    } else if j == 7 {
    } else if j == 8 {
    } else {
    }
}

proof fn lemma_effective_fields(file: Option<PartialConfig>, a: ScanArgs)
    ensures
        forall|j: int| 0 <= j < 10 ==> #[trigger] field_of(flags_applied(base_config(file), a, 10), j)
            == switched(file_or_default(file, j), switch_pair(a, j).0, switch_pair(a, j).1),
{
    let c = base_config(file);
    lemma_applied_fields(c, a, 10);
    assert forall|j: int| 0 <= j < 10 implies #[trigger] field_of(flags_applied(c, a, 10), j)
        == switched(file_or_default(file, j), switch_pair(a, j).0, switch_pair(a, j).1) by {
        lemma_base_field(file, j);
        assert(field_of(flags_applied(c, a, 10), j) == applied_field(c, a, 10, j));
    }
}

/// The switches override the configuration file, which overrides the
/// defaults: each switchable field is the switch given for it, else the
/// file's value for it, else its default; and a scan with a pair given with
/// both switches is refused.
/// A scan with a switch pair given with both switches is refused, and only such a scan.
pub proof fn law_conflicting_pair_refused(file: Option<PartialConfig>, a: ScanArgs)
    ensures
        (exists|j: int| 0 <= j < 10 && #[trigger] switch_pair(a, j).0 && switch_pair(a, j).1) <==> effective(file, a) is Err,
{
    lemma_conflict_from(a, 0);
}

/// The switches override the configuration file, which overrides the
/// defaults: each switchable field is the switch given for it, else the
/// file's value for it, else its default.
pub proof fn law_switches_over_file_over_defaults(file: Option<PartialConfig>, a: ScanArgs)
    ensures
        effective(file, a) is Ok ==> forall|j: int| 0 <= j < 10 ==> #[trigger] field_of(effective(file, a)->Ok_0, j)
            == switched(file_or_default(file, j), switch_pair(a, j).0, switch_pair(a, j).1),
{
    if first_conflict(a) >= 10 {
        lemma_effective_fields(file, a);
        assert(effective(file, a)->Ok_0 == flags_applied(base_config(file), a, 10));
    }
}

} // verus!
