//! Replays of recorded answers through the parsers: which engine reads which
//! recorded answer, and from which source address it is replayed.

use vstd::prelude::*;
use crate::devices::{Device, DeviceView, views};
use crate::ip::IpAddr;
use crate::protocols::arp::{arp_devices, arp_parse};
use crate::protocols::common::chars_eq;
use crate::protocols::dispatch::{datagram_devices, parse_datagram};
use crate::protocols::engines::{Engine, engine_name, registry, registry_table};
use crate::scanner::ascii_lower;
use crate::text::{lower_char, owned, str_chars, to_lower_char};

verus! {

/// The port every replay comes from.
pub const REPLAY_PORT: u16 = 1024;

/// One recorded answer to replay.
pub struct Replay {
    /// The engine's registry name (the two Dahua engines share one; the
    /// fixture's name tells them apart).
    pub engine_name: String,
    /// The file name of the recorded answer.
    pub fixture: String,
    /// The address and port the answer is replayed from.
    pub source: (IpAddr, u16),
}

/// The replays: engine name, fixture file, and the third and fourth octet of
/// the source `240.0.<id>.<minor>` (the registry ID; 0 for the mDNS engines,
/// whose broker has none).
pub open spec fn replay_table() -> Seq<(Seq<char>, Seq<char>, u8, u8)> {
    seq![
        ("SSDP"@, "SSDP.selftest"@, 1u8, 0u8),
        ("WSDiscovery"@, "Wsdiscovery.selftest"@, 2u8, 0u8),
        ("Dahua"@, "Dahua1.selftest"@, 3u8, 0u8),
        ("Dahua"@, "Dahua2.selftest"@, 4u8, 0u8),
        ("Hikvision"@, "Hikvision.selftest"@, 5u8, 0u8),
        ("Axis"@, "Axis.selftest"@, 0u8, 0u8),
        ("Bosch"@, "Bosch.bin.selftest"@, 7u8, 0u8),
        ("Bosch"@, "Bosch.xml.selftest"@, 7u8, 0u8),
        ("Google"@, "GoogleCast.selftest"@, 0u8, 0u8),
        ("Hanwha"@, "Hanwha.selftest"@, 9u8, 0u8),
        ("Vivotek"@, "Vivotek.selftest"@, 10u8, 0u8),
        ("Sony"@, "Sony.selftest"@, 11u8, 0u8),
        ("Ubiquiti"@, "Ubiquiti.selftest"@, 12u8, 0u8),
        ("360Vision"@, "360Vision.selftest"@, 13u8, 0u8),
        ("NiceVision"@, "NiceVision.selftest"@, 14u8, 0u8),
        ("Panasonic"@, "Panasonic.selftest"@, 15u8, 0u8),
        ("Arecont"@, "Arecont.selftest"@, 0u8, 0u8),
        ("GigEVision"@, "GigEVision.selftest"@, 17u8, 0u8),
        ("VStarcam"@, "Vstarcam.selftest"@, 18u8, 0u8),
        ("Eaton"@, "Eaton.selftest"@, 19u8, 0u8),
        ("Foscam"@, "Foscam.selftest"@, 20u8, 0u8),
        ("Foscam"@, "Foscam_cipher.selftest"@, 20u8, 0u8),
        ("Lantronix"@, "Lantronix.selftest"@, 23u8, 0u8),
        ("Lantronix"@, "Vauban.selftest"@, 23u8, 1u8),
        ("Microchip"@, "Microchip.selftest"@, 24u8, 0u8),
        ("Microchip"@, "GCE.selftest"@, 24u8, 0u8),
        ("Advantech"@, "Advantech.selftest"@, 25u8, 0u8),
        ("Eden"@, "Eden.selftest"@, 26u8, 0u8),
        ("CyberPower"@, "CyberPower.selftest"@, 28u8, 0u8),
        ("MSSQL"@, "MSSQL.selftest"@, 29u8, 0u8),
        ("ARP"@, "Arp.selftest"@, 30u8, 0u8)
    ]
}

/// A replay agrees with a row of the table.
pub open spec fn replay_matches(r: Replay, row: (Seq<char>, Seq<char>, u8, u8)) -> bool {
    &&& r.engine_name@ == row.0
    &&& r.fixture@ == row.1
    &&& r.source == (IpAddr::V4(240, 0, row.2, row.3), REPLAY_PORT)
}

fn entry(engine_name: &str, fixture: &str, id: u8, minor: u8) -> (r: Replay)
    ensures
        replay_matches(r, (engine_name@, fixture@, id, minor)),
{
    Replay {
        engine_name: owned(engine_name),
        fixture: owned(fixture),
        source: (IpAddr::V4(240, 0, id, minor), REPLAY_PORT),
    }
}

/// Every replay, in table order.
pub fn replays() -> (r: Vec<Replay>)
    ensures
        r@.len() == replay_table().len(),
        forall|i: int| 0 <= i < r@.len() ==> replay_matches(#[trigger] r@[i], replay_table()[i]),
{
    let mut r: Vec<Replay> = Vec::new();
    r.push(entry("SSDP", "SSDP.selftest", 1, 0));
    r.push(entry("WSDiscovery", "Wsdiscovery.selftest", 2, 0));
    r.push(entry("Dahua", "Dahua1.selftest", 3, 0));
    r.push(entry("Dahua", "Dahua2.selftest", 4, 0));
    r.push(entry("Hikvision", "Hikvision.selftest", 5, 0));
    r.push(entry("Axis", "Axis.selftest", 0, 0));
    r.push(entry("Bosch", "Bosch.bin.selftest", 7, 0));
    r.push(entry("Bosch", "Bosch.xml.selftest", 7, 0));
    r.push(entry("Google", "GoogleCast.selftest", 0, 0));
    r.push(entry("Hanwha", "Hanwha.selftest", 9, 0));
    r.push(entry("Vivotek", "Vivotek.selftest", 10, 0));
    r.push(entry("Sony", "Sony.selftest", 11, 0));
    r.push(entry("Ubiquiti", "Ubiquiti.selftest", 12, 0));
    r.push(entry("360Vision", "360Vision.selftest", 13, 0));
    r.push(entry("NiceVision", "NiceVision.selftest", 14, 0));
    r.push(entry("Panasonic", "Panasonic.selftest", 15, 0));
    r.push(entry("Arecont", "Arecont.selftest", 0, 0));
    r.push(entry("GigEVision", "GigEVision.selftest", 17, 0));
    r.push(entry("VStarcam", "Vstarcam.selftest", 18, 0));
    r.push(entry("Eaton", "Eaton.selftest", 19, 0));
    r.push(entry("Foscam", "Foscam.selftest", 20, 0));
    r.push(entry("Foscam", "Foscam_cipher.selftest", 20, 0));
    r.push(entry("Lantronix", "Lantronix.selftest", 23, 0));
    r.push(entry("Lantronix", "Vauban.selftest", 23, 1));
    r.push(entry("Microchip", "Microchip.selftest", 24, 0));
    r.push(entry("Microchip", "GCE.selftest", 24, 0));
    r.push(entry("Advantech", "Advantech.selftest", 25, 0));
    r.push(entry("Eden", "Eden.selftest", 26, 0));
    r.push(entry("CyberPower", "CyberPower.selftest", 28, 0));
    r.push(entry("MSSQL", "MSSQL.selftest", 29, 0));
    r.push(entry("ARP", "Arp.selftest", 30, 0));
    r
}

/// What reads a recorded answer.
#[derive(Debug, Clone, Copy, PartialEq, Eq, Structural)]
pub enum ReplayTarget {
    /// The engine's datagram parser.
    Datagram(Engine),
    /// One of the mDNS engines, which take their answers from the broker.
    Mdns(Engine),
    /// The ARP frame parser.
    Arp,
}

/// The first registry engine with the given name.
pub open spec fn first_named(t: Seq<(u16, Engine)>, name: Seq<char>) -> Option<Engine>
    decreases t.len(),
{
    if t.len() == 0 {
        None
    } else if engine_name(t[0].1) == name {
        Some(t[0].1)
    } else {
        first_named(t.drop_first(), name)
    }
}

/// Whether an engine is one of the mDNS consumers.
pub open spec fn is_mdns(e: Engine) -> bool {
    e == Engine::Axis || e == Engine::GoogleCast || e == Engine::Arecont
}

/// What reads a replay: `ARP` the ARP parser; `Dahua` the first Dahua engine
/// for a fixture whose name starts with `Dahua1`, else the second; any other
/// name the registry engine of that name; `None` for a name no engine has.
pub open spec fn replay_target(name: Seq<char>, fixture: Seq<char>) -> Option<ReplayTarget> {
    if name == "ARP"@ {
        Some(ReplayTarget::Arp)
    } else if name == "Dahua"@ {
        if fixture.len() >= 6 && fixture.subrange(0, 6) == "Dahua1"@ {
            Some(ReplayTarget::Datagram(Engine::Dahua1))
        } else {
            Some(ReplayTarget::Datagram(Engine::Dahua2))
        }
    } else {
        match first_named(registry_table(), name) {
            Some(e) => if is_mdns(e) {
                Some(ReplayTarget::Mdns(e))
            } else {
                Some(ReplayTarget::Datagram(e))
            },
            None => None,
        }
    }
}

fn named_engine(all: &Vec<(u16, Engine)>, name: &[char]) -> (r: Option<Engine>)
    ensures
        r == first_named(all@, name@),
{
    let mut i: usize = 0;
    assert(all@.subrange(0, all@.len() as int) =~= all@);
    while i < all.len()
        invariant
            i <= all@.len(),
            first_named(all@, name@) == first_named(all@.subrange(i as int, all@.len() as int), name@),
        decreases all@.len() - i,
    {
        let ghost rest = all@.subrange(i as int, all@.len() as int);
        assert(rest[0] == all@[i as int]);
        let e = all[i].1;
        let en = str_chars(e.name());
        if chars_eq(en.as_slice(), name) {
            return Some(e);
        }
        assert(rest.drop_first() =~= all@.subrange(i + 1, all@.len() as int));
        i += 1;
    }
    None
}

/// What reads the given replay.
pub fn target_of(re: &Replay) -> (r: Option<ReplayTarget>)
    ensures
        r == replay_target(re.engine_name@, re.fixture@),
{
    let name = str_chars(re.engine_name.as_str());
    let fixture = str_chars(re.fixture.as_str());
    let arp = str_chars("ARP");
    let dahua = str_chars("Dahua");
    if chars_eq(name.as_slice(), arp.as_slice()) {
        return Some(ReplayTarget::Arp);
    }
    if chars_eq(name.as_slice(), dahua.as_slice()) {
        let d1 = str_chars("Dahua1");
        if fixture.len() >= 6 {
            let head = crate::text::slice_vec(fixture.as_slice(), 0, 6);
            if chars_eq(head.as_slice(), d1.as_slice()) {
                return Some(ReplayTarget::Datagram(Engine::Dahua1));
            }
        }
        return Some(ReplayTarget::Datagram(Engine::Dahua2));
    }
    let all = registry();
    match named_engine(&all, name.as_slice()) {
        Some(e) => if e == Engine::Axis || e == Engine::GoogleCast || e == Engine::Arecont {
            Some(ReplayTarget::Mdns(e))
        } else {
            Some(ReplayTarget::Datagram(e))
        },
        None => None,
    }
}

/// What a replay of `bytes` reports: the datagram parser's devices from the
/// replay's source address, or the ARP parser's; `None` where the name is no
/// engine's, where the engine takes its answers from the mDNS broker (whose
/// answers arrive decoded, not as bytes), or where the parser cannot read the
/// bytes.
pub open spec fn replay_devices(name: Seq<char>, fixture: Seq<char>, from: IpAddr, bytes: Seq<u8>) -> Option<Seq<DeviceView>> {
    match replay_target(name, fixture) {
        Some(ReplayTarget::Datagram(e)) => datagram_devices(e, from, bytes),
        Some(ReplayTarget::Arp) => Some(arp_devices(bytes)),
        Some(ReplayTarget::Mdns(_)) => None,
        None => None,
    }
}

/// Replays recorded bytes through the parser the replay names.
pub fn replay(re: &Replay, bytes: &[u8]) -> (r: Option<Vec<Device>>)
    ensures
        match r {
            Some(devs) => replay_devices(re.engine_name@, re.fixture@, re.source.0, bytes@) == Some(views(devs@)),
            None => replay_devices(re.engine_name@, re.fixture@, re.source.0, bytes@) is None,
        },
{
    match target_of(re) {
        Some(ReplayTarget::Datagram(e)) => parse_datagram(e, re.source.0, bytes),
        Some(ReplayTarget::Arp) => Some(arp_parse(bytes)),
        _ => None,
    }
}

/// The replays of one engine, its name matched without regard to ASCII
/// case; every replay without a name.
pub open spec fn chosen(all: Seq<Replay>, protocol: Option<Seq<char>>) -> Seq<Replay>
    decreases all.len(),
{
    if all.len() == 0 {
        Seq::empty()
    } else {
        let rest = chosen(all.drop_last(), protocol);
        match protocol {
            Some(p) => if ascii_lower(all.last().engine_name@) == ascii_lower(p) {
                rest.push(all.last())
            } else {
                rest
            },
            None => rest.push(all.last()),
        }
    }
}

fn lower_of(s: &str) -> (r: Vec<char>)
    ensures
        r@ == ascii_lower(s@),
{
    let cs = str_chars(s);
    let mut r: Vec<char> = Vec::new();
    let mut i: usize = 0;
    while i < cs.len()
        invariant
            i <= cs@.len(),
            cs@ == s@,
            r@ == ascii_lower(cs@.subrange(0, i as int)),
        decreases cs@.len() - i,
    {
        r.push(to_lower_char(cs[i]));
        proof {
            assert(ascii_lower(cs@.subrange(0, i + 1)) =~= ascii_lower(cs@.subrange(0, i as int)).push(lower_char(cs@[i as int])));
        }
        i += 1;
    }
    assert(cs@.subrange(0, cs@.len() as int) =~= cs@);
    r
}

/// Keeps the replays of the named engine (all of them without a name), in order.
pub fn select_replays(all: Vec<Replay>, protocol: Option<&str>) -> (r: Vec<Replay>)
    ensures
        r@ == chosen(all@, match protocol {
            Some(p) => Some(p@),
            None => None,
        }),
{
    let ghost want = match protocol {
        Some(p) => Some(p@),
        None => None,
    };
    let lowered: Option<Vec<char>> = match protocol {
        Some(p) => Some(lower_of(p)),
        None => None,
    };
    let ghost src = all@;
    let mut rest = all;
    let mut kept: Vec<Replay> = Vec::new();
    let n = rest.len();
    let mut i: usize = 0;
    assert(src.subrange(0, src.len() as int) =~= src);
    while i < n
        invariant
            i <= n,
            n == src.len(),
            rest@ == src.subrange(i as int, n as int),
            kept@ == chosen(src.subrange(0, i as int), want),
            match protocol {
                Some(p) => (lowered matches Some(l) && l@ == ascii_lower(p@) && want == Some(p@)),
                None => lowered is None && want is None,
            },
        decreases n - i,
    {
        let re = rest.remove(0);
        assert(re == src[i as int]);
        proof {
            assert(src.subrange(0, i + 1).drop_last() =~= src.subrange(0, i as int));
            assert(rest@ =~= src.subrange(i + 1, n as int));
        }
        let keep = match &lowered {
            Some(l) => {
                let name = lower_of(re.engine_name.as_str());
                chars_eq(name.as_slice(), l.as_slice())
            },
            None => true,
        };
        if keep {
            kept.push(re);
        }
        i += 1;
    }
    assert(src.subrange(0, n as int) =~= src);
    kept
}

} // verus!
