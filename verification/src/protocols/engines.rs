//! The engines, their registry IDs, names, row colours and reserved ports.

use vstd::prelude::*;

verus! {

/// The protocol engines.
#[derive(Debug, Clone, Copy, PartialEq, Eq, Structural)]
pub enum Engine {
    Ssdp,
    Wsd,
    Dahua1,
    Dahua2,
    Hikvision,
    Axis,
    Bosch,
    GoogleCast,
    Hanwha,
    Vivotek,
    Sony,
    Ubiquiti,
    Vision360,
    NiceVision,
    Panasonic,
    Arecont,
    GigEVision,
    Vstarcam,
    Eaton,
    Foscam,
    Lantronix,
    Microchip,
    Advantech,
    Eden,
    CyberPower,
    Mssql,
    Arp,
    Tvt,
}

/// The name an engine reports its devices under (two engines share `Dahua`).
pub open spec fn engine_name(e: Engine) -> Seq<char> {
    match e {
        Engine::Ssdp => "SSDP"@,
        Engine::Wsd => "WSDiscovery"@,
        Engine::Dahua1 => "Dahua"@,
        Engine::Dahua2 => "Dahua"@,
        Engine::Hikvision => "Hikvision"@,
        Engine::Axis => "Axis"@,
        Engine::Bosch => "Bosch"@,
        Engine::GoogleCast => "Google"@,
        Engine::Hanwha => "Hanwha"@,
        Engine::Vivotek => "Vivotek"@,
        Engine::Sony => "Sony"@,
        Engine::Ubiquiti => "Ubiquiti"@,
        Engine::Vision360 => "360Vision"@,
        Engine::NiceVision => "NiceVision"@,
        Engine::Panasonic => "Panasonic"@,
        Engine::Arecont => "Arecont"@,
        Engine::GigEVision => "GigEVision"@,
        Engine::Vstarcam => "VStarcam"@,
        Engine::Eaton => "Eaton"@,
        Engine::Foscam => "Foscam"@,
        Engine::Lantronix => "Lantronix"@,
        Engine::Microchip => "Microchip"@,
        Engine::Advantech => "Advantech"@,
        Engine::Eden => "Eden"@,
        Engine::CyberPower => "CyberPower"@,
        Engine::Mssql => "MSSQL"@,
        Engine::Arp => "ARP"@,
        Engine::Tvt => "TVT"@,
    }
}

/// The colour of an engine's rows (`0xRRGGBB`).
pub open spec fn engine_color(e: Engine) -> u32 {
    match e {
        Engine::Ssdp => 0x006400,
        Engine::Wsd => 0x404040,
        Engine::Dahua1 => 0x8b0000,
        Engine::Dahua2 => 0x8b0000,
        Engine::Hikvision => 0xff0000,
        Engine::Axis => 0x806000,
        Engine::Bosch => 0xff0000,
        Engine::GoogleCast => 0x00008B,
        Engine::Hanwha => 0xff8c00,
        Engine::Vivotek => 0x008080,
        Engine::Sony => 0x000000,
        Engine::Ubiquiti => 0x008080,
        Engine::Vision360 => 0x800080,
        Engine::NiceVision => 0x32948E,
        Engine::Panasonic => 0x000000,
        Engine::Arecont => 0x00008B,
        Engine::GigEVision => 0xff0000,
        Engine::Vstarcam => 0x00008B,
        Engine::Eaton => 0x0000ff,
        Engine::Foscam => 0xff0000,
        Engine::Lantronix => 0xFFA500,
        Engine::Microchip => 0xFF0000,
        Engine::Advantech => 0x008080,
        Engine::Eden => 0xff0000,
        Engine::CyberPower => 0xff8c00,
        Engine::Mssql => 0x000000,
        Engine::Arp => 0x0000FF,
        Engine::Tvt => 0x9932CC,
    }
}

/// The local ports an engine reserves (mDNS engines share the broker's port).
pub open spec fn engine_ports(e: Engine) -> Seq<u16> {
    match e {
        Engine::Ssdp => seq![1900u16],
        Engine::Wsd => seq![3702u16],
        Engine::Dahua1 => seq![5050u16],
        Engine::Dahua2 => seq![37810u16],
        Engine::Hikvision => seq![37020u16],
        Engine::Axis => Seq::empty(),
        Engine::Bosch => seq![1758u16],
        Engine::GoogleCast => Seq::empty(),
        Engine::Hanwha => seq![7711u16],
        Engine::Vivotek => Seq::empty(),
        Engine::Sony => Seq::empty(),
        Engine::Ubiquiti => seq![10001u16],
        Engine::Vision360 => seq![3600u16],
        Engine::NiceVision => Seq::empty(),
        Engine::Panasonic => seq![10670u16],
        Engine::Arecont => Seq::empty(),
        Engine::GigEVision => seq![3956u16],
        Engine::Vstarcam => seq![8600u16],
        Engine::Eaton => seq![4679u16],
        Engine::Foscam => seq![10000u16],
        Engine::Lantronix => seq![30718u16],
        Engine::Microchip => seq![30303u16],
        Engine::Advantech => Seq::empty(),
        Engine::Eden => seq![8088u16],
        Engine::CyberPower => seq![53566u16],
        Engine::Mssql => seq![1434u16],
        Engine::Arp => Seq::empty(),
        Engine::Tvt => seq![23456u16],
    }
}

impl Engine {
    pub fn name(&self) -> (r: &'static str)
        ensures
            r@ == engine_name(*self),
    {
        match self {
            Engine::Ssdp => "SSDP",
            Engine::Wsd => "WSDiscovery",
            Engine::Dahua1 => "Dahua",
            Engine::Dahua2 => "Dahua",
            Engine::Hikvision => "Hikvision",
            Engine::Axis => "Axis",
            Engine::Bosch => "Bosch",
            Engine::GoogleCast => "Google",
            Engine::Hanwha => "Hanwha",
            Engine::Vivotek => "Vivotek",
            Engine::Sony => "Sony",
            Engine::Ubiquiti => "Ubiquiti",
            Engine::Vision360 => "360Vision",
            Engine::NiceVision => "NiceVision",
            Engine::Panasonic => "Panasonic",
            Engine::Arecont => "Arecont",
            Engine::GigEVision => "GigEVision",
            Engine::Vstarcam => "VStarcam",
            Engine::Eaton => "Eaton",
            Engine::Foscam => "Foscam",
            Engine::Lantronix => "Lantronix",
            Engine::Microchip => "Microchip",
            Engine::Advantech => "Advantech",
            Engine::Eden => "Eden",
            Engine::CyberPower => "CyberPower",
            Engine::Mssql => "MSSQL",
            Engine::Arp => "ARP",
            Engine::Tvt => "TVT",
        }
    }

    pub fn color(&self) -> (r: u32)
        ensures
            r == engine_color(*self),
    {
        match self {
            Engine::Ssdp => 0x006400,
            Engine::Wsd => 0x404040,
            Engine::Dahua1 => 0x8b0000,
            Engine::Dahua2 => 0x8b0000,
            Engine::Hikvision => 0xff0000,
            Engine::Axis => 0x806000,
            Engine::Bosch => 0xff0000,
            Engine::GoogleCast => 0x00008B,
            Engine::Hanwha => 0xff8c00,
            Engine::Vivotek => 0x008080,
            Engine::Sony => 0x000000,
            Engine::Ubiquiti => 0x008080,
            Engine::Vision360 => 0x800080,
            Engine::NiceVision => 0x32948E,
            Engine::Panasonic => 0x000000,
            Engine::Arecont => 0x00008B,
            Engine::GigEVision => 0xff0000,
            Engine::Vstarcam => 0x00008B,
            Engine::Eaton => 0x0000ff,
            Engine::Foscam => 0xff0000,
            Engine::Lantronix => 0xFFA500,
            Engine::Microchip => 0xFF0000,
            Engine::Advantech => 0x008080,
            Engine::Eden => 0xff0000,
            Engine::CyberPower => 0xff8c00,
            Engine::Mssql => 0x000000,
            Engine::Arp => 0x0000FF,
            Engine::Tvt => 0x9932CC,
        }
    }

    pub fn used_ports(&self) -> (r: Vec<u16>)
        ensures
            r@ == engine_ports(*self),
    {
        let mut r: Vec<u16> = Vec::new();
        match self {
            Engine::Ssdp => {
                r.push(1900);
            },
            Engine::Wsd => {
                r.push(3702);
            },
            Engine::Dahua1 => {
                r.push(5050);
            },
            Engine::Dahua2 => {
                r.push(37810);
            },
            Engine::Hikvision => {
                r.push(37020);
            },
            Engine::Bosch => {
                r.push(1758);
            },
            Engine::Hanwha => {
                r.push(7711);
            },
            Engine::Ubiquiti => {
                r.push(10001);
            },
            Engine::Vision360 => {
                r.push(3600);
            },
            Engine::Panasonic => {
                r.push(10670);
            },
            Engine::GigEVision => {
                r.push(3956);
            },
            Engine::Vstarcam => {
                r.push(8600);
            },
            Engine::Eaton => {
                r.push(4679);
            },
            Engine::Foscam => {
                r.push(10000);
            },
            Engine::Lantronix => {
                r.push(30718);
            },
            Engine::Microchip => {
                r.push(30303);
            },
            Engine::Eden => {
                r.push(8088);
            },
            Engine::CyberPower => {
                r.push(53566);
            },
            Engine::Mssql => {
                r.push(1434);
            },
            Engine::Tvt => {
                r.push(23456);
            },
            _ => {},
        }
        proof {
            assert(r@ =~= engine_ports(*self));
        }
        r
    }
}

/// The registry: every engine with its ID, by increasing ID (21, 22 and 27 are unused).
pub open spec fn registry_table() -> Seq<(u16, Engine)> {
    seq![
        (1u16, Engine::Ssdp),
        (2u16, Engine::Wsd),
        (3u16, Engine::Dahua1),
        (4u16, Engine::Dahua2),
        (5u16, Engine::Hikvision),
        (6u16, Engine::Axis),
        (7u16, Engine::Bosch),
        (8u16, Engine::GoogleCast),
        (9u16, Engine::Hanwha),
        (10u16, Engine::Vivotek),
        (11u16, Engine::Sony),
        (12u16, Engine::Ubiquiti),
        (13u16, Engine::Vision360),
        (14u16, Engine::NiceVision),
        (15u16, Engine::Panasonic),
        (16u16, Engine::Arecont),
        (17u16, Engine::GigEVision),
        (18u16, Engine::Vstarcam),
        (19u16, Engine::Eaton),
        (20u16, Engine::Foscam),
        (23u16, Engine::Lantronix),
        (24u16, Engine::Microchip),
        (25u16, Engine::Advantech),
        (26u16, Engine::Eden),
        (28u16, Engine::CyberPower),
        (29u16, Engine::Mssql),
    ]
}

/// The engines of a scan: the registry and the ARP engine (ID 30).
pub open spec fn scan_table() -> Seq<(u16, Engine)> {
    registry_table().push((30u16, Engine::Arp))
}

/// The engines the engine list shows: those of a scan and the TVT engine
/// (ID 31), which no scan runs.
pub open spec fn listed_table() -> Seq<(u16, Engine)> {
    scan_table().push((31u16, Engine::Tvt))
}

/// The engines of a scan with their IDs.
pub fn scan_engines() -> (r: Vec<(u16, Engine)>)
    ensures
        r@ == scan_table(),
{
    let mut r = registry();
    r.push((30, Engine::Arp));
    r
}

/// The engines of the engine list with their IDs.
pub fn listed_engines() -> (r: Vec<(u16, Engine)>)
    ensures
        r@ == listed_table(),
{
    let mut r = scan_engines();
    r.push((31, Engine::Tvt));
    r
}

/// The engines with their IDs.
pub fn registry() -> (r: Vec<(u16, Engine)>)
    ensures
        r@ == registry_table(),
{
    let mut r: Vec<(u16, Engine)> = Vec::new();
    r.push((1, Engine::Ssdp));
    r.push((2, Engine::Wsd));
    r.push((3, Engine::Dahua1));
    r.push((4, Engine::Dahua2));
    r.push((5, Engine::Hikvision));
    r.push((6, Engine::Axis));
    r.push((7, Engine::Bosch));
    r.push((8, Engine::GoogleCast));
    r.push((9, Engine::Hanwha));
    r.push((10, Engine::Vivotek));
    r.push((11, Engine::Sony));
    r.push((12, Engine::Ubiquiti));
    r.push((13, Engine::Vision360));
    r.push((14, Engine::NiceVision));
    r.push((15, Engine::Panasonic));
    r.push((16, Engine::Arecont));
    r.push((17, Engine::GigEVision));
    r.push((18, Engine::Vstarcam));
    r.push((19, Engine::Eaton));
    r.push((20, Engine::Foscam));
    r.push((23, Engine::Lantronix));
    r.push((24, Engine::Microchip));
    r.push((25, Engine::Advantech));
    r.push((26, Engine::Eden));
    r.push((28, Engine::CyberPower));
    r.push((29, Engine::Mssql));
    proof {
        assert(r@ =~= registry_table());
    }
    r
}

} // verus!
