//! The ARP engine's logic: devices from captured ARP frames, the local
//! addresses it ignores, and the hosts a subnet sweep asks for.

use vstd::prelude::*;
use crate::arp::frame::{ArpFrame, parse as parse_frame, is_garp, is_arp_frame, frame_fields, garp};
use crate::devices::{Device, DeviceView, views};
use crate::iface::{subnet_hosts, host_count, first_host};
use crate::ip::IpAddr;
use crate::protocols::engines::{Engine, engine_name, engine_color, engine_ports};
use crate::protocols::common::{make_device, lit};
use crate::text::{mac_chars, hex2};
use crate::tvt_provision::{hex_val, mac_text_ok, mac_text_octets};

verus! {

pub open spec fn lhex(n: int) -> char {
    if n < 10 {
        (48 + n) as char
    } else {
        (87 + n) as char
    }
}

/// A MAC in lower-case hex pairs separated by colons.
pub open spec fn mac_lower(m: Seq<u8>) -> Seq<char> {
    Seq::new(17, |i: int| if i % 3 == 2 {
        ':'
    } else if i % 3 == 0 {
        lhex(m[i / 3] as int / 16)
    } else {
        lhex(m[i / 3] as int % 16)
    })
}

fn lhex_exec(n: u8) -> (c: char)
    requires
        n < 16,
    ensures
        c == lhex(n as int),
{
    if n < 10 {
        (48 + n) as char
    } else {
        (87 + n) as char
    }
}

fn mac_lower_exec(m: &[u8; 6]) -> (v: Vec<char>)
    ensures
        v@ == mac_lower(m@),
{
    let mut v: Vec<char> = Vec::new();
    let mut k: usize = 0;
    while k < 6
        invariant
            k <= 6,
            v@.len() == if k == 0 { 0 } else { 3 * k - 1 },
            forall|i: int| 0 <= i < v@.len() ==> v@[i] == mac_lower(m@)[i],
        decreases 6 - k,
    {
        if k > 0 {
            v.push(':');
        }
        v.push(lhex_exec(m[k] / 16));
        v.push(lhex_exec(m[k] % 16));
        k += 1;
    }
    assert(v@ =~= mac_lower(m@));
    v
}

/// The device a captured frame shows: the sender, typed `GARP` for a
/// gratuitous ARP and `ARP` otherwise, its MAC as serial (lower-case) and
/// as MAC column (upper-case); version 0. Nothing for other frames.
pub open spec fn arp_devices(b: Seq<u8>) -> Seq<DeviceView> {
    if !is_arp_frame(b) {
        Seq::empty()
    } else {
        let m = b.subrange(22, 28);
        let garp_frame = b[20] == 0 && b[21] == 1 && b.subrange(28, 32) == b.subrange(38, 42);
        seq![DeviceView {
            protocol: "ARP"@,
            version: 0,
            ip: IpAddr::V4(b[28], b[29], b[30], b[31]),
            mac: mac_chars(m),
            device_type: if garp_frame { "GARP"@ } else { "ARP"@ },
            serial: mac_lower(m),
        }]
    }
}

pub fn arp_parse(frame_bytes: &[u8]) -> (devs: Vec<Device>)
    ensures
        views(devs@) == arp_devices(frame_bytes@),
{
    let mut out: Vec<Device> = Vec::new();
    let p = match parse_frame(frame_bytes) {
        Some(p) => p,
        None => return out,
    };
    let ty = if is_garp(&p) { "GARP" } else { "ARP" };
    let serial = mac_lower_exec(&p.src_mac);
    let mac = crate::text::mac_chars_at(&p.src_mac, 0);
    proof {
        assert(p.src_mac@.subrange(0, 6) =~= p.src_mac@);
    }
    let ip = IpAddr::V4(p.sender_ip[0], p.sender_ip[1], p.sender_ip[2], p.sender_ip[3]);
    out.push(make_device("ARP", 0, ip, mac.as_slice(), lit(ty).as_slice(), serial.as_slice()));
    assert(views(out@) =~= arp_devices(frame_bytes@));
    out
}

/// Whether a device sits at one of the local IPv4 addresses.
pub open spec fn is_local(d: DeviceView, locals: Seq<[u8; 4]>) -> bool {
    ip_is_local(d.ip, locals)
}

pub open spec fn ip_is_local(ip: IpAddr, locals: Seq<[u8; 4]>) -> bool {
    match ip {
        IpAddr::V4(a, b, c, e) => exists|i: int| 0 <= i < locals.len() && #[trigger] locals[i]@ == seq![a, b, c, e],
        IpAddr::V6(..) => false,
    }
}

/// The devices not at a local address, in order.
pub open spec fn without_local(ds: Seq<DeviceView>, locals: Seq<[u8; 4]>) -> Seq<DeviceView>
    decreases ds.len(),
{
    if ds.len() == 0 {
        Seq::empty()
    } else {
        without_local(ds.drop_last(), locals) + if is_local(ds.last(), locals) {
            Seq::empty()
        } else {
            seq![ds.last()]
        }
    }
}

fn local_exec(ip: IpAddr, locals: &[[u8; 4]]) -> (r: bool)
    ensures
        r == ip_is_local(ip, locals@),
{
    match ip {
        IpAddr::V4(a, b, c, e) => {
            let mut i: usize = 0;
            while i < locals.len()
                invariant
                    i <= locals@.len(),
                    ip == IpAddr::V4(a, b, c, e),
                    forall|j: int| 0 <= j < i ==> locals@[j]@ != seq![a, b, c, e],
                decreases locals@.len() - i,
            {
                let l = locals[i];
                if l[0] == a && l[1] == b && l[2] == c && l[3] == e {
                    assert(locals@[i as int]@ =~= seq![a, b, c, e]);
                    assert(0 <= i < locals@.len() && locals@[i as int]@ == seq![a, b, c, e]);
                    return true;
                }
                assert(l@ != seq![a, b, c, e]) by {
                    if l@ == seq![a, b, c, e] {
                        assert(l@[0] == a && l@[1] == b && l@[2] == c && l@[3] == e);
                    }
                }
                i += 1;
            }
            false
        },
        IpAddr::V6(..) => false,
    }
}

/// Drops the devices at local IPv4 addresses (IPv6 devices are kept).
pub fn filter_local(devs: Vec<Device>, local_ips: &[[u8; 4]]) -> (kept: Vec<Device>)
    ensures
        views(kept@) == without_local(views(devs@), local_ips@),
{
    let ghost ds = views(devs@);
    let mut out: Vec<Device> = Vec::new();
    let mut i: usize = 0;
    while i < devs.len()
        invariant
            i <= devs@.len(),
            ds == views(devs@),
            views(out@) == without_local(ds.subrange(0, i as int), local_ips@),
        decreases devs@.len() - i,
    {
        proof {
            assert(ds.subrange(0, i + 1).drop_last() =~= ds.subrange(0, i as int));
            assert(ds.subrange(0, i + 1).last() == devs@[i as int]@);
        }
        let local = local_exec(devs[i].ip, local_ips);
        let ghost before = out@;
        if !local {
            let d = devs[i].duplicate();
            out.push(d);
            assert(views(out@) =~= views(before).push(d@));
        }
        i += 1;
    }
    assert(ds.subrange(0, devs@.len() as int) =~= ds);
    out
}

/// The values of `s` other than `x`, in order.
pub open spec fn without_value(s: Seq<u32>, x: u32) -> Seq<u32>
    decreases s.len(),
{
    if s.len() == 0 {
        Seq::empty()
    } else {
        without_value(s.drop_last(), x) + if s.last() == x {
            Seq::empty()
        } else {
            seq![s.last()]
        }
    }
}

/// The subnet's hosts (at most 254) other than `ip` itself.
pub open spec fn sweep_hosts(ip: u32, mask: u32) -> Seq<u32> {
    without_value(Seq::new(host_count(ip, mask, 254) as nat, |i: int| (first_host(ip, mask) + i) as u32), ip)
}

/// The hosts an ARP sweep from `ip` under `mask` asks for (addresses as `u32`).
pub fn sweep_plan(ip: u32, mask: u32) -> (hosts: Vec<u32>)
    ensures
        hosts@ == sweep_hosts(ip, mask),
{
    let all = subnet_hosts(ip, mask, 254);
    let ghost s = Seq::new(host_count(ip, mask, 254) as nat, |i: int| (first_host(ip, mask) + i) as u32);
    assert(all@ =~= s);
    let mut out: Vec<u32> = Vec::new();
    let mut i: usize = 0;
    while i < all.len()
        invariant
            i <= all@.len(),
            all@ == s,
            out@ == without_value(s.subrange(0, i as int), ip),
        decreases all@.len() - i,
    {
        proof {
            assert(s.subrange(0, i + 1).drop_last() =~= s.subrange(0, i as int));
        }
        let h = all[i];
        if h != ip {
            out.push(h);
        }
        i += 1;
    }
    assert(s.subrange(0, all@.len() as int) =~= s);
    out
}

/// The ARP engine: it reads captured Ethernet frames, not datagrams.
pub struct Arp;

impl Arp {
    pub fn name(&self) -> (r: &'static str)
        ensures
            r@ == engine_name(Engine::Arp),
    {
        Engine::Arp.name()
    }

    /// The colour of the engine's rows (`0xRRGGBB`).
    pub fn color(&self) -> (r: u32)
        ensures
            r == engine_color(Engine::Arp),
    {
        Engine::Arp.color()
    }

    /// The local ports the engine reserves.
    pub fn used_ports(&self) -> (r: Vec<u16>)
        ensures
            r@ == engine_ports(Engine::Arp),
    {
        Engine::Arp.used_ports()
    }

    /// The devices a captured frame reports.
    pub fn parse(&self, data: &[u8]) -> (devs: Vec<Device>)
        ensures
            views(devs@) == arp_devices(data@),
    {
        arp_parse(data)
    }
}

proof fn lemma_lhex_val(n: int)
    requires
        0 <= n < 16,
    ensures
        hex_val(lhex(n)) == n,
        !('A' <= lhex(n) && lhex(n) <= 'F'),
{
}

/// The lower-case MAC text reads back as the octets it was made from (by
/// the MAC-text parser): octet `k` is the pair at `3k`, high nibble first;
/// it holds no upper-case hex letter.
pub proof fn law_mac_lower_reads_back(m: Seq<u8>)
    requires
        m.len() == 6,
    ensures
        mac_text_ok(mac_lower(m)),
        mac_text_octets(mac_lower(m)) == m,
        forall|i: int| 0 <= i < 17 ==> !('A' <= #[trigger] mac_lower(m)[i] && mac_lower(m)[i] <= 'F'),
{
    let s = mac_lower(m);
    assert forall|k: int| 0 <= k < 6 implies hex_val(#[trigger] s[3 * k]) == m[k] as int / 16 && hex_val(s[3 * k + 1]) == m[k] as int % 16 by {
        assert((3 * k) % 3 == 0 && (3 * k) / 3 == k);
        assert((3 * k + 1) % 3 == 1 && (3 * k + 1) / 3 == k);
        lemma_lhex_val(m[k] as int / 16);
        lemma_lhex_val(m[k] as int % 16);
    }
    assert forall|i: int| 0 <= i < 17 implies (if i % 3 == 2 { s[i] == ':' } else { hex_val(#[trigger] s[i]) >= 0 }) by {
        if i % 3 != 2 {
            lemma_lhex_val(if i % 3 == 0 { m[i / 3] as int / 16 } else { m[i / 3] as int % 16 });
        }
    }
    assert forall|i: int| 0 <= i < 17 implies !('A' <= #[trigger] s[i] && s[i] <= 'F') by {
        if i % 3 != 2 {
            lemma_lhex_val(if i % 3 == 0 { m[i / 3] as int / 16 } else { m[i / 3] as int % 16 });
        }
    }
    assert(mac_text_octets(s) =~= m);
}

/// The serial of a captured frame's device is the sender MAC text, which
/// reads back as the frame's sender hardware address (bytes 22..28).
pub proof fn law_arp_serial_is_sender_mac(b: Seq<u8>)
    ensures
        arp_devices(b).len() > 0 ==> mac_text_ok(arp_devices(b)[0].serial)
            && mac_text_octets(arp_devices(b)[0].serial) == b.subrange(22, 28),
{
    if arp_devices(b).len() > 0 {
        law_mac_lower_reads_back(b.subrange(22, 28));
    }
}

} // verus!
