//! One entry point for the datagram parsers: an engine, a sender and the
//! bytes of a datagram give the devices it reports.

use vstd::prelude::*;
use crate::devices::{Device, DeviceView, views};
use crate::ip::IpAddr;
use crate::text::lossy_utf8;
use crate::protocols::engines::Engine;
use crate::protocols::{
    advantech, bosch, cyberpower, dahua1, dahua2, eaton, eden, foscam, gige, hanwha, hikvision,
    lantronix, microchip, mssql, nicevision, panasonic, sony, ssdp, ubiquiti, vision360, vivotek,
    vstarcam, wsd, arp, tvt,
};

verus! {

/// Whether an engine takes its answers from the mDNS broker rather than from
/// datagrams of its own (its datagram parser reports nothing).
pub open spec fn is_mdns_engine(e: Engine) -> bool {
    e == Engine::Axis || e == Engine::GoogleCast || e == Engine::Arecont
}

/// What an engine's parser reports for a datagram `d` from `from` (for the
/// ARP engine, a captured Ethernet frame); `None`
/// where the parser cannot read the datagram (a 360Vision answer whose first
/// line break follows a multi-byte character).
pub open spec fn datagram_devices(e: Engine, from: IpAddr, d: Seq<u8>) -> Option<Seq<DeviceView>> {
    match e {
        Engine::Ssdp => Some(ssdp::ssdp_devices(from, lossy_utf8(d))),
        Engine::Wsd => Some(wsd::wsd_devices(from, lossy_utf8(d))),
        Engine::Dahua1 => Some(dahua1::dahua1_devices(from, d)),
        Engine::Dahua2 => Some(dahua2::dahua2_devices(from, d)),
        Engine::Hikvision => Some(hikvision::hik_devices(from, lossy_utf8(d))),
        Engine::Axis => Some(Seq::empty()),
        Engine::Bosch => Some(bosch::bosch_devices(from, d)),
        Engine::GoogleCast => Some(Seq::empty()),
        Engine::Hanwha => Some(hanwha::hanwha_devices(from, d)),
        Engine::Vivotek => Some(vivotek::vivotek_devices(d)),
        Engine::Sony => Some(sony::sony_devices(from, d)),
        Engine::Ubiquiti => Some(ubiquiti::ubiquiti_devices(from, d)),
        Engine::Vision360 => if vision360::answer_ok(lossy_utf8(d)) {
            Some(vision360::vision_devices(from, lossy_utf8(d)))
        } else {
            None
        },
        Engine::NiceVision => Some(nicevision::nicevision_devices(d)),
        Engine::Panasonic => Some(panasonic::panasonic_devices(d)),
        Engine::Arecont => Some(Seq::empty()),
        Engine::GigEVision => Some(gige::gige_devices(from, d)),
        Engine::Vstarcam => Some(vstarcam::vstarcam_devices(from, d)),
        Engine::Eaton => Some(eaton::eaton_devices(from, lossy_utf8(d))),
        Engine::Foscam => Some(foscam::foscam_devices(d)),
        Engine::Lantronix => Some(lantronix::lantronix_devices(from, d)),
        Engine::Microchip => Some(microchip::microchip_devices(from, d)),
        Engine::Advantech => Some(advantech::advantech_devices(from, d)),
        Engine::Eden => Some(eden::eden_devices(from, lossy_utf8(d))),
        Engine::CyberPower => Some(cyberpower::cyberpower_devices(d)),
        Engine::Mssql => Some(mssql::mssql_devices(from, d)),
        Engine::Arp => Some(arp::arp_devices(d)),
        Engine::Tvt => Some(tvt::tvt_devices(from, d)),
    }
}

fn some_devices(devs: Vec<Device>) -> (r: Option<Vec<Device>>)
    ensures
        r matches Some(v) && v@ == devs@,
{
    Some(devs)
}

/// Hands a datagram from `from` to `engine`'s parser.
pub fn parse_datagram(engine: Engine, from: IpAddr, data: &[u8]) -> (r: Option<Vec<Device>>)
    ensures
        match r {
            Some(devs) => datagram_devices(engine, from, data@) == Some(views(devs@)),
            None => datagram_devices(engine, from, data@) is None,
        },
{
    let r = match engine {
        Engine::Ssdp => some_devices(ssdp::parse(from, data)),
        Engine::Wsd => some_devices(wsd::parse(from, data)),
        Engine::Dahua1 => some_devices(dahua1::parse(from, data)),
        Engine::Dahua2 => some_devices(dahua2::parse(from, data)),
        Engine::Hikvision => some_devices(hikvision::parse(from, data)),
        Engine::Axis => some_devices(Vec::new()),
        Engine::Bosch => some_devices(bosch::parse(from, data)),
        Engine::GoogleCast => some_devices(Vec::new()),
        Engine::Hanwha => some_devices(hanwha::parse(from, data)),
        Engine::Vivotek => some_devices(vivotek::parse(data)),
        Engine::Sony => some_devices(sony::parse(from, data)),
        Engine::Ubiquiti => some_devices(ubiquiti::parse(from, data)),
        Engine::Vision360 => vision360::parse(from, data),
        Engine::NiceVision => some_devices(nicevision::parse(data)),
        Engine::Panasonic => some_devices(panasonic::parse(data)),
        Engine::Arecont => some_devices(Vec::new()),
        Engine::GigEVision => some_devices(gige::parse(from, data)),
        Engine::Vstarcam => some_devices(vstarcam::parse(from, data)),
        Engine::Eaton => some_devices(eaton::parse(from, data)),
        Engine::Foscam => some_devices(foscam::parse(data)),
        Engine::Lantronix => some_devices(lantronix::parse(from, data)),
        Engine::Microchip => some_devices(microchip::parse(from, data)),
        Engine::Advantech => some_devices(advantech::parse(from, data)),
        Engine::Eden => some_devices(eden::parse(from, data)),
        Engine::CyberPower => some_devices(cyberpower::parse(data)),
        Engine::Mssql => some_devices(mssql::parse(from, data)),
        Engine::Arp => some_devices(arp::arp_parse(data)),
        Engine::Tvt => some_devices(tvt::parse(from, data)),
    };
    proof {
        if is_mdns_engine(engine) && r is Some {
            assert(views(r->0@) =~= Seq::<DeviceView>::empty());
        }
    }
    r
}

/// The mDNS engines report nothing from a datagram of their own.
pub proof fn law_mdns_engines_ignore_datagrams(e: Engine, from: IpAddr, d: Seq<u8>)
    requires
        is_mdns_engine(e),
    ensures
        datagram_devices(e, from, d) == Some(Seq::<DeviceView>::empty()),
{
}

} // verus!
