//! What each engine listens on and where it sends its probes; the probes
//! themselves, with the per-engine counters some of them carry.

use vstd::prelude::*;
use crate::protocols::engines::Engine;
use crate::protocols::gige::{GigEVision, discovery_cmd};
use crate::protocols::nicevision::{NiceVision, nice_request};
use crate::protocols::vivotek::{Vivotek, request};
use crate::protocols::{
    advantech, bosch, cyberpower, dahua1, dahua2, eaton, eden, foscam, hanwha, hikvision, lantronix,
    microchip, mssql, panasonic, sony, ubiquiti, vision360, vstarcam, wsd, tvt,
};

verus! {

/// Where a probe goes: the subnet broadcast or a multicast group (four
/// octets), on a port.
#[derive(Debug, Clone, Copy, PartialEq, Eq, Structural)]
pub enum Dest {
    Broadcast(u16),
    Multicast(u8, u8, u8, u8, u16),
}

/// The socket an engine listens on besides one per interface: a fixed port,
/// a free port from the provider, a multicast group joined on its port, two
/// groups each joined on the one port, or none.
#[derive(Debug, Clone, Copy, PartialEq, Eq, Structural)]
pub enum Listen {
    Fixed(u16),
    FreePort,
    Group(u8, u8, u8, u8, u16),
    TwoGroups(u8, u8, u8, u8, u8, u8, u8, u8, u16),
    Nothing,
}

/// The listening socket of each engine (the mDNS engines listen through the
/// broker; the ARP engine captures frames instead).
pub open spec fn engine_listen(e: Engine) -> Listen {
    match e {
        Engine::Ssdp => Listen::Group(239, 255, 255, 250, 1900),
        Engine::Wsd => Listen::Group(239, 255, 255, 250, 3702),
        Engine::Dahua1 => Listen::Fixed(5050),
        Engine::Dahua2 => Listen::Group(239, 255, 255, 251, 37810),
        Engine::Hikvision => Listen::Group(239, 255, 255, 250, 37020),
        Engine::Axis => Listen::Nothing,
        Engine::Bosch => Listen::Fixed(1758),
        Engine::GoogleCast => Listen::Nothing,
        Engine::Hanwha => Listen::Fixed(7711),
        Engine::Vivotek => Listen::Nothing,
        Engine::Sony => Listen::Nothing,
        Engine::Ubiquiti => Listen::Fixed(10001),
        Engine::Vision360 => Listen::Fixed(3600),
        Engine::NiceVision => Listen::FreePort,
        Engine::Panasonic => Listen::Fixed(10669),
        Engine::Arecont => Listen::Nothing,
        Engine::GigEVision => Listen::Nothing,
        Engine::Vstarcam => Listen::Fixed(8600),
        Engine::Eaton => Listen::Fixed(4679),
        Engine::Foscam => Listen::Fixed(10000),
        Engine::Lantronix => Listen::Fixed(30718),
        Engine::Microchip => Listen::Fixed(30303),
        Engine::Advantech => Listen::Nothing,
        Engine::Eden => Listen::Fixed(8088),
        Engine::CyberPower => Listen::Fixed(53566),
        Engine::Mssql => Listen::Fixed(1434),
        Engine::Arp => Listen::Nothing,
        Engine::Tvt => Listen::TwoGroups(234, 55, 55, 55, 234, 55, 55, 56, 23456),
    }
}

/// Whether an engine also listens on one socket per interface (all but the
/// mDNS engines and the ARP engine).
pub open spec fn listens_per_interface(e: Engine) -> bool {
    !(e == Engine::Axis || e == Engine::GoogleCast || e == Engine::Arecont || e == Engine::Arp)
}

/// Where each engine sends its probe, in sending order (SSDP sends none; the
/// mDNS engines query through the broker; the ARP engine sends frames).
pub open spec fn engine_dests(e: Engine) -> Seq<Dest> {
    match e {
        Engine::Ssdp => Seq::empty(),
        Engine::Wsd => seq![Dest::Multicast(239, 255, 255, 250, 3702)],
        Engine::Dahua1 => seq![Dest::Broadcast(5050)],
        Engine::Dahua2 => seq![Dest::Multicast(239, 255, 255, 251, 37810), Dest::Broadcast(37810)],
        Engine::Hikvision => seq![Dest::Multicast(239, 255, 255, 250, 37020)],
        Engine::Axis => Seq::empty(),
        Engine::Bosch => seq![Dest::Broadcast(1757)],
        Engine::GoogleCast => Seq::empty(),
        Engine::Hanwha => seq![Dest::Broadcast(7701)],
        Engine::Vivotek => seq![Dest::Broadcast(10000)],
        Engine::Sony => seq![Dest::Broadcast(2380)],
        Engine::Ubiquiti => seq![Dest::Multicast(233, 89, 188, 1, 10001), Dest::Broadcast(10001)],
        Engine::Vision360 => seq![Dest::Broadcast(3600)],
        Engine::NiceVision => seq![Dest::Broadcast(2007)],
        Engine::Panasonic => seq![Dest::Broadcast(10670)],
        Engine::Arecont => Seq::empty(),
        Engine::GigEVision => seq![Dest::Broadcast(3956)],
        Engine::Vstarcam => seq![Dest::Broadcast(8600)],
        Engine::Eaton => seq![Dest::Broadcast(4679)],
        Engine::Foscam => seq![Dest::Broadcast(10000)],
        Engine::Lantronix => seq![Dest::Broadcast(30718)],
        Engine::Microchip => seq![Dest::Broadcast(30303)],
        Engine::Advantech => seq![Dest::Broadcast(5048)],
        Engine::Eden => seq![Dest::Broadcast(8088)],
        Engine::CyberPower => seq![Dest::Broadcast(53566)],
        Engine::Mssql => seq![Dest::Broadcast(1434)],
        Engine::Arp => Seq::empty(),
        Engine::Tvt => seq![Dest::Multicast(234, 55, 55, 55, 23456)],
    }
}

/// The listening socket of an engine.
pub fn listen_of(e: Engine) -> (r: Listen)
    ensures
        r == engine_listen(e),
{
    match e {
        Engine::Ssdp => Listen::Group(239, 255, 255, 250, 1900),
        Engine::Wsd => Listen::Group(239, 255, 255, 250, 3702),
        Engine::Dahua1 => Listen::Fixed(5050),
        Engine::Dahua2 => Listen::Group(239, 255, 255, 251, 37810),
        Engine::Hikvision => Listen::Group(239, 255, 255, 250, 37020),
        Engine::Axis => Listen::Nothing,
        Engine::Bosch => Listen::Fixed(1758),
        Engine::GoogleCast => Listen::Nothing,
        Engine::Hanwha => Listen::Fixed(7711),
        Engine::Vivotek => Listen::Nothing,
        Engine::Sony => Listen::Nothing,
        Engine::Ubiquiti => Listen::Fixed(10001),
        Engine::Vision360 => Listen::Fixed(3600),
        Engine::NiceVision => Listen::FreePort,
        Engine::Panasonic => Listen::Fixed(10669),
        Engine::Arecont => Listen::Nothing,
        Engine::GigEVision => Listen::Nothing,
        Engine::Vstarcam => Listen::Fixed(8600),
        Engine::Eaton => Listen::Fixed(4679),
        Engine::Foscam => Listen::Fixed(10000),
        Engine::Lantronix => Listen::Fixed(30718),
        Engine::Microchip => Listen::Fixed(30303),
        Engine::Advantech => Listen::Nothing,
        Engine::Eden => Listen::Fixed(8088),
        Engine::CyberPower => Listen::Fixed(53566),
        Engine::Mssql => Listen::Fixed(1434),
        Engine::Arp => Listen::Nothing,
        Engine::Tvt => Listen::TwoGroups(234, 55, 55, 55, 234, 55, 55, 56, 23456),
    }
}

/// Whether an engine listens on one socket per interface.
pub fn per_interface(e: Engine) -> (b: bool)
    ensures
        b == listens_per_interface(e),
{
    !(e == Engine::Axis || e == Engine::GoogleCast || e == Engine::Arecont || e == Engine::Arp)
}

/// Where an engine sends its probe.
pub fn dests_of(e: Engine) -> (r: Vec<Dest>)
    ensures
        r@ == engine_dests(e),
{
    let r: Vec<Dest> = match e {
        Engine::Wsd => vec![Dest::Multicast(239, 255, 255, 250, 3702)],
        Engine::Dahua1 => vec![Dest::Broadcast(5050)],
        Engine::Dahua2 => vec![Dest::Multicast(239, 255, 255, 251, 37810), Dest::Broadcast(37810)],
        Engine::Hikvision => vec![Dest::Multicast(239, 255, 255, 250, 37020)],
        Engine::Bosch => vec![Dest::Broadcast(1757)],
        Engine::Hanwha => vec![Dest::Broadcast(7701)],
        Engine::Vivotek => vec![Dest::Broadcast(10000)],
        Engine::Sony => vec![Dest::Broadcast(2380)],
        Engine::Ubiquiti => vec![Dest::Multicast(233, 89, 188, 1, 10001), Dest::Broadcast(10001)],
        Engine::Vision360 => vec![Dest::Broadcast(3600)],
        Engine::NiceVision => vec![Dest::Broadcast(2007)],
        Engine::Panasonic => vec![Dest::Broadcast(10670)],
        Engine::GigEVision => vec![Dest::Broadcast(3956)],
        Engine::Vstarcam => vec![Dest::Broadcast(8600)],
        Engine::Eaton => vec![Dest::Broadcast(4679)],
        Engine::Foscam => vec![Dest::Broadcast(10000)],
        Engine::Lantronix => vec![Dest::Broadcast(30718)],
        Engine::Microchip => vec![Dest::Broadcast(30303)],
        Engine::Advantech => vec![Dest::Broadcast(5048)],
        Engine::Eden => vec![Dest::Broadcast(8088)],
        Engine::CyberPower => vec![Dest::Broadcast(53566)],
        Engine::Mssql => vec![Dest::Broadcast(1434)],
        Engine::Tvt => vec![Dest::Multicast(234, 55, 55, 55, 23456)],
        _ => Vec::new(),
    };
    assert(r@ =~= engine_dests(e));
    r
}

/// The counters that some probes carry, one per engine that has one.
pub struct Probes {
    pub vivotek: Vivotek,
    pub nicevision: NiceVision,
    pub gige: GigEVision,
}

/// What an engine's probe is, given the counters before it is built and
/// sixteen random bytes (if any could be drawn): `None` for the engines that
/// send none; for Bosch, when the clock can be read, a probe for some time of
/// day (which one the clock decides); for WS-Discovery outside verbatim
/// mode, the probe whose message id is the UUID made from the random bytes,
/// and none without them.
pub open spec fn probe_ok(e: Engine, before: Probes, verbatim: bool, random: Option<[u8; 16]>, p: Option<Seq<u8>>) -> bool {
    match e {
        Engine::Ssdp | Engine::Axis | Engine::GoogleCast | Engine::Arecont | Engine::Arp => p is None,
        Engine::Wsd => if verbatim {
            p == Some(vstd::utf8::encode_utf8(wsd::verbatim_probe()))
        } else {
            match random {
                Some(r) => p == Some(vstd::utf8::encode_utf8(wsd::announce_head() + wsd::uuid_text(wsd::v4_bytes(r@)) + wsd::announce_tail())),
                None => p is None,
            }
        },
        Engine::Dahua1 => p == Some(dahua1::discover_bytes()),
        Engine::Dahua2 => p == Some(dahua2::search_request()),
        Engine::Hikvision => p == Some(vstd::utf8::encode_utf8(hikvision::probe_text())),
        Engine::Bosch => p matches Some(b) ==> exists|h: u32, m: u32, s: u32, ms: u32| h < 24 && m < 60 && s < 60 && ms < 2000
            && b == bosch::probe_bytes(h, m, s, ms),
        Engine::Hanwha => p matches Some(b) && b.len() == 0x106 && b[0] == 0x01 && forall|i: int| 1 <= i < 0x106 ==> b[i] == 0,
        Engine::Vivotek => p == Some(request(before.vivotek.next_session())),
        Engine::Sony => p == Some(seq![0x02u8, 0x45, 0x4e, 0x51, 0x3a, 0x61, 0x6c, 0x6c, 0x69, 0x6e, 0x66, 0x6f, 0xff, 0x03]),
        Engine::Ubiquiti => p == Some(seq![1u8, 0, 0, 0]),
        Engine::Vision360 => p == Some(vision360::request_text().map_values(|c: char| c as u8)),
        Engine::NiceVision => p == Some(nice_request(((before.nicevision.transaction_id as int + 1) % 65536) as u16)),
        Engine::Panasonic => p == Some(panasonic::panasonic_probe()),
        Engine::GigEVision => p == Some(discovery_cmd((before.gige.request_counter as int + 1) % 0x1_0000_0000 % 65536)),
        Engine::Vstarcam => p == Some(seq![0x44u8, 0x48, 0x01, 0x01]),
        Engine::Eaton => p == Some(seq![0x3cu8, 0x53, 0x43, 0x41, 0x4e, 0x5f, 0x52, 0x45, 0x51, 0x55, 0x45, 0x53, 0x54, 0x2f, 0x3e]),
        Engine::Foscam => p == Some(foscam::foscam_probe()),
        Engine::Lantronix => p == Some(seq![0u8, 0, 0, 0xF6]),
        Engine::Microchip => p == Some(microchip::probe_bytes()),
        Engine::Advantech => p == Some(advantech::advantech_probe()),
        Engine::Eden => p == Some(seq![0x44u8, 0x45, 0x54, 0x45, 0x43, 0x54, 0x20, 0x42, 0x4f, 0x58]),
        Engine::CyberPower => p == Some(seq![0x11u8, 0, 0]),
        Engine::Mssql => p == Some(seq![0x02u8]),
        Engine::Tvt => p == Some(tvt::tvt_probe()),
    }
}

/// Only the engine's own counter moves.
pub open spec fn counters_after(e: Engine, before: Probes, after: Probes) -> bool {
    &&& after.vivotek.next_session() == (if e == Engine::Vivotek {
        if before.vivotek.next_session() == 255 { 0 } else { (before.vivotek.next_session() + 1) as u8 }
    } else {
        before.vivotek.next_session()
    })
    &&& after.nicevision.transaction_id == (if e == Engine::NiceVision {
        ((before.nicevision.transaction_id as int + 1) % 65536) as u16
    } else {
        before.nicevision.transaction_id
    })
    &&& after.gige.request_counter == (if e == Engine::GigEVision {
        ((before.gige.request_counter as int + 1) % 0x1_0000_0000) as u32
    } else {
        before.gige.request_counter
    })
}

fn owned_bytes(b: &[u8]) -> (v: Vec<u8>)
    ensures
        v@ == b@,
{
    let n = b.len();
    crate::text::slice_vec(b, 0, n)
}

impl Probes {
    /// Counters at their starting values.
    pub fn new() -> (p: Probes)
        ensures
            p.vivotek.next_session() == 1,
            p.nicevision.transaction_id == 0,
            p.gige.request_counter == 0,
    {
        Probes { vivotek: Vivotek::new(), nicevision: NiceVision::new(), gige: GigEVision::new() }
    }

    /// The next probe of an engine (`None` for those that send none);
    /// `verbatim` selects the fixed WS-Discovery probe, `random` gives the
    /// bytes of the WS-Discovery message id.
    pub fn next(&mut self, e: Engine, verbatim: bool, random: Option<[u8; 16]>) -> (r: Option<Vec<u8>>)
        ensures
            probe_ok(e, *old(self), verbatim, random, match r {
                Some(v) => Some(v@),
                None => None,
            }),
            counters_after(e, *old(self), *final(self)),
    {
        match e {
            Engine::Ssdp | Engine::Axis | Engine::GoogleCast | Engine::Arecont | Engine::Arp => None,
            Engine::Wsd => if verbatim {
                Some(wsd::build_probe(true, [0u8; 16]))
            } else {
                match random {
                    Some(r) => Some(wsd::build_probe(false, r)),
                    None => None,
                }
            },
            Engine::Dahua1 => Some(dahua1::build_probe()),
            Engine::Dahua2 => Some(dahua2::build_probe()),
            Engine::Hikvision => Some(hikvision::build_probe()),
            Engine::Bosch => bosch::build_probe(),
            Engine::Hanwha => Some(hanwha::build_probe()),
            Engine::Vivotek => Some(self.vivotek.build_probe()),
            Engine::Sony => Some(sony::build_probe()),
            Engine::Ubiquiti => Some(ubiquiti::build_probe()),
            Engine::Vision360 => Some(vision360::build_probe()),
            Engine::NiceVision => {
                let p = self.nicevision.next_probe();
                Some(owned_bytes(&p))
            },
            Engine::Panasonic => {
                let p = panasonic::build_probe();
                Some(owned_bytes(&p))
            },
            Engine::GigEVision => {
                let p = self.gige.next_probe();
                Some(owned_bytes(&p))
            },
            Engine::Vstarcam => {
                let p = vstarcam::build_probe();
                Some(owned_bytes(&p))
            },
            Engine::Eaton => Some(eaton::build_probe()),
            Engine::Foscam => {
                let p = foscam::build_probe();
                Some(owned_bytes(&p))
            },
            Engine::Lantronix => {
                let p = lantronix::build_probe();
                Some(owned_bytes(&p))
            },
            Engine::Microchip => Some(microchip::build_probe()),
            Engine::Advantech => {
                let p = advantech::build_probe();
                Some(owned_bytes(&p))
            },
            Engine::Eden => Some(eden::build_probe()),
            Engine::CyberPower => {
                let p = cyberpower::build_probe();
                Some(owned_bytes(&p))
            },
            Engine::Mssql => {
                let p = mssql::build_probe();
                Some(owned_bytes(&p))
            },
            Engine::Tvt => {
                let p = tvt::build_probe();
                Some(owned_bytes(&p))
            },
        }
    }
}

} // verus!
