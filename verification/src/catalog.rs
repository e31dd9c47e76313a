//! What each engine listens on, for the engine list.

use vstd::prelude::*;
use crate::protocols::engines::listed_table;

verus! {

/// The listening port, the way of listening and a description of an engine.
pub struct Meta {
    pub port: &'static str,
    pub listen: &'static str,
    pub desc: &'static str,
}

/// The port, listening and description texts of the engine with a registry ID;
/// dashes and an empty description for an unknown ID.
pub open spec fn meta_of(id: u16) -> (Seq<char>, Seq<char>, Seq<char>) {
    if id == 1 {
        ("1900"@, "multicast 239.255.255.250:1900"@, "UPnP SSDP rootdevice discovery"@)
    } else if id == 2 {
        ("3702"@, "multicast 239.255.255.250:3702"@, "WS-Discovery device probe"@)
    } else if id == 3 {
        ("5050"@, "global+ifaces :5050"@, "Dahua (legacy) probe"@)
    } else if id == 4 {
        ("37810"@, "multicast 239.255.255.251:37810"@, "Dahua subnet scan (netscan)"@)
    } else if id == 5 {
        ("37020"@, "multicast 239.255.255.250:37020"@, "Hikvision device discovery"@)
    } else if id == 6 {
        ("5353"@, "mdns broker 5353"@, "Axis (mDNS consumer)"@)
    } else if id == 7 {
        ("1758"@, "global+ifaces :1758"@, "Bosch video server discovery"@)
    } else if id == 8 {
        ("5353"@, "mdns broker 5353"@, "Google Cast (mDNS consumer)"@)
    } else if id == 9 {
        ("7711"@, "global+ifaces :7711"@, "Hanwha camera discovery"@)
    } else if id == 10 {
        ("10000"@, "ifaces only :10000"@, "Vivotek camera discovery"@)
    } else if id == 11 {
        ("2380"@, "ifaces only :2380"@, "Sony camera discovery"@)
    } else if id == 12 {
        ("10001"@, "global+ifaces :10001"@, "Ubiquiti UniFi discovery"@)
    } else if id == 13 {
        ("3600"@, "global+ifaces :3600"@, "360 Vision camera discovery"@)
    } else if id == 14 {
        ("2007"@, "global+ifaces :2007"@, "NiceVision discovery"@)
    } else if id == 15 {
        ("10670"@, "global+ifaces :10670"@, "Panasonic camera discovery"@)
    } else if id == 16 {
        ("5353"@, "mdns broker 5353"@, "Arecont (mDNS consumer)"@)
    } else if id == 17 {
        ("3956"@, "ifaces only :3956"@, "GigE Vision discovery"@)
    } else if id == 18 {
        ("8600"@, "global+ifaces :8600"@, "VStarcam camera discovery"@)
    } else if id == 19 {
        ("4679"@, "global+ifaces :4679"@, "Eaton IPM discovery"@)
    } else if id == 20 {
        ("10000"@, "global+ifaces :10000"@, "Foscam camera discovery"@)
    } else if id == 23 {
        ("30718"@, "global+ifaces :30718"@, "Lantronix/Vauban discovery"@)
    } else if id == 24 {
        ("30303"@, "global+ifaces :30303"@, "Microchip discovery"@)
    } else if id == 25 {
        ("5048"@, "ifaces only :5048"@, "Advantech camera discovery"@)
    } else if id == 26 {
        ("8088"@, "global+ifaces :8088"@, "Eden Optima discovery"@)
    } else if id == 28 {
        ("53566"@, "global+ifaces :53566"@, "CyberPower UPS discovery"@)
    } else if id == 29 {
        ("1434"@, "global+ifaces :1434"@, "MSSQL browser discovery"@)
    } else if id == 30 {
        ("—"@, "pcap ARP (L2)"@, "ARP/GARP host discovery (L2 capture)"@)
    } else if id == 31 {
        ("23456"@, "multicast 234.55.55.55/.56 :23456"@, "TVT camera discovery (MHED, reverse-engineered)"@)
    } else {
        ("—"@, "—"@, ""@)
    }
}

/// The listing texts of an engine by registry ID.
pub fn proto_meta(id: u16) -> (m: Meta)
    ensures
        (m.port@, m.listen@, m.desc@) == meta_of(id),
{
    match id {
        1 => Meta { port: "1900", listen: "multicast 239.255.255.250:1900", desc: "UPnP SSDP rootdevice discovery" },
        2 => Meta { port: "3702", listen: "multicast 239.255.255.250:3702", desc: "WS-Discovery device probe" },
        3 => Meta { port: "5050", listen: "global+ifaces :5050", desc: "Dahua (legacy) probe" },
        4 => Meta { port: "37810", listen: "multicast 239.255.255.251:37810", desc: "Dahua subnet scan (netscan)" },
        5 => Meta { port: "37020", listen: "multicast 239.255.255.250:37020", desc: "Hikvision device discovery" },
        6 => Meta { port: "5353", listen: "mdns broker 5353", desc: "Axis (mDNS consumer)" },
        7 => Meta { port: "1758", listen: "global+ifaces :1758", desc: "Bosch video server discovery" },
        8 => Meta { port: "5353", listen: "mdns broker 5353", desc: "Google Cast (mDNS consumer)" },
        9 => Meta { port: "7711", listen: "global+ifaces :7711", desc: "Hanwha camera discovery" },
        10 => Meta { port: "10000", listen: "ifaces only :10000", desc: "Vivotek camera discovery" },
        11 => Meta { port: "2380", listen: "ifaces only :2380", desc: "Sony camera discovery" },
        12 => Meta { port: "10001", listen: "global+ifaces :10001", desc: "Ubiquiti UniFi discovery" },
        13 => Meta { port: "3600", listen: "global+ifaces :3600", desc: "360 Vision camera discovery" },
        14 => Meta { port: "2007", listen: "global+ifaces :2007", desc: "NiceVision discovery" },
        15 => Meta { port: "10670", listen: "global+ifaces :10670", desc: "Panasonic camera discovery" },
        16 => Meta { port: "5353", listen: "mdns broker 5353", desc: "Arecont (mDNS consumer)" },
        17 => Meta { port: "3956", listen: "ifaces only :3956", desc: "GigE Vision discovery" },
        18 => Meta { port: "8600", listen: "global+ifaces :8600", desc: "VStarcam camera discovery" },
        19 => Meta { port: "4679", listen: "global+ifaces :4679", desc: "Eaton IPM discovery" },
        20 => Meta { port: "10000", listen: "global+ifaces :10000", desc: "Foscam camera discovery" },
        23 => Meta { port: "30718", listen: "global+ifaces :30718", desc: "Lantronix/Vauban discovery" },
        24 => Meta { port: "30303", listen: "global+ifaces :30303", desc: "Microchip discovery" },
        25 => Meta { port: "5048", listen: "ifaces only :5048", desc: "Advantech camera discovery" },
        26 => Meta { port: "8088", listen: "global+ifaces :8088", desc: "Eden Optima discovery" },
        28 => Meta { port: "53566", listen: "global+ifaces :53566", desc: "CyberPower UPS discovery" },
        29 => Meta { port: "1434", listen: "global+ifaces :1434", desc: "MSSQL browser discovery" },
        30 => Meta { port: "—", listen: "pcap ARP (L2)", desc: "ARP/GARP host discovery (L2 capture)" },
        31 => Meta { port: "23456", listen: "multicast 234.55.55.55/.56 :23456", desc: "TVT camera discovery (MHED, reverse-engineered)" },
        _ => Meta { port: "—", listen: "—", desc: "" },
    }
}

/// Every engine of the engine list has a catalog entry with a description,
/// and an ID that no engine has gets the dashes and an empty description.
pub proof fn law_catalog_covers_list(k: int, other: u16)
    requires
        0 <= k < listed_table().len(),
        forall|j: int| 0 <= j < listed_table().len() ==> #[trigger] listed_table()[j].0 != other,
    ensures
        meta_of(listed_table()[k].0).2.len() > 0,
        meta_of(other) == ("—"@, "—"@, ""@),
{
    reveal_strlit("UPnP SSDP rootdevice discovery");
    reveal_strlit("WS-Discovery device probe");
    reveal_strlit("Dahua (legacy) probe");
    reveal_strlit("Dahua subnet scan (netscan)");
    reveal_strlit("Hikvision device discovery");
    reveal_strlit("Axis (mDNS consumer)");
    reveal_strlit("Bosch video server discovery");
    reveal_strlit("Google Cast (mDNS consumer)");
    reveal_strlit("Hanwha camera discovery");
    reveal_strlit("Vivotek camera discovery");
    reveal_strlit("Sony camera discovery");
    reveal_strlit("Ubiquiti UniFi discovery");
    reveal_strlit("360 Vision camera discovery");
    reveal_strlit("NiceVision discovery");
    reveal_strlit("Panasonic camera discovery");
    reveal_strlit("Arecont (mDNS consumer)");
    reveal_strlit("GigE Vision discovery");
    reveal_strlit("VStarcam camera discovery");
    reveal_strlit("Eaton IPM discovery");
    reveal_strlit("Foscam camera discovery");
    reveal_strlit("Lantronix/Vauban discovery");
    reveal_strlit("Microchip discovery");
    reveal_strlit("Advantech camera discovery");
    reveal_strlit("Eden Optima discovery");
    reveal_strlit("CyberPower UPS discovery");
    reveal_strlit("MSSQL browser discovery");
    reveal_strlit("ARP/GARP host discovery (L2 capture)");
    reveal_strlit("TVT camera discovery (MHED, reverse-engineered)");
    let t = listed_table();
    assert(t[0].0 == 1 && t[1].0 == 2 && t[2].0 == 3 && t[3].0 == 4 && t[4].0 == 5 && t[5].0 == 6 && t[6].0 == 7);
    assert(t[7].0 == 8 && t[8].0 == 9 && t[9].0 == 10 && t[10].0 == 11 && t[11].0 == 12 && t[12].0 == 13);
    assert(t[13].0 == 14 && t[14].0 == 15 && t[15].0 == 16 && t[16].0 == 17 && t[17].0 == 18 && t[18].0 == 19);
    assert(t[19].0 == 20 && t[20].0 == 23 && t[21].0 == 24 && t[22].0 == 25 && t[23].0 == 26 && t[24].0 == 28);
    assert(t[25].0 == 29 && t[26].0 == 30 && t[27].0 == 31);
}

} // verus!
