//! Address classes and IPv4 subnet arithmetic.
//!
//! IPv4 addresses and masks appear here as `u32` values, most significant
//! octet first (the value `u32::from(Ipv4Addr)` gives).

use vstd::prelude::*;
use crate::ip::IpAddr;

verus! {

/// Private ranges: 10/8, 172.16/12, 192.168/16, 169.254/16, fd00::/8, fe80::/10.
pub open spec fn private_ip(ip: IpAddr) -> bool {
    match ip {
        IpAddr::V4(a, b, _, _) => a == 10 || (a == 172 && 16 <= b <= 31) || (a == 192 && b == 168)
            || (a == 169 && b == 254),
        IpAddr::V6(s0, _, _, _, _, _, _, _) => (0xfd00 <= s0 && s0 <= 0xfdff) || (0xfe80 <= s0 && s0 <= 0xfebf),
    }
}

/// Link-local (self-assigned) addresses: 169.254/16 and fe80::/10.
pub open spec fn autoconf_ip(ip: IpAddr) -> bool {
    match ip {
        IpAddr::V4(a, b, _, _) => a == 169 && b == 254,
        IpAddr::V6(s0, _, _, _, _, _, _, _) => 0xfe80 <= s0 && s0 <= 0xfebf,
    }
}

/// Whether the address lies in one of the private ranges.
pub fn is_private(ip: IpAddr) -> (r: bool)
    ensures
        r == private_ip(ip),
{
    match ip {
        IpAddr::V4(a, b, _, _) => a == 10 || (a == 172 && 16 <= b && b <= 31) || (a == 192 && b == 168)
            || (a == 169 && b == 254),
        IpAddr::V6(s0, _, _, _, _, _, _, _) => {
            let hi = s0 & 0xff00;
            let ll = s0 & 0xffc0;
            assert(hi == 0xfd00 <==> (0xfd00 <= s0 && s0 <= 0xfdff)) by (bit_vector)
                requires hi == s0 & 0xff00;
            assert(ll == 0xfe80 <==> (0xfe80 <= s0 && s0 <= 0xfebf)) by (bit_vector)
                requires ll == s0 & 0xffc0;
            hi == 0xfd00 || ll == 0xfe80
        },
    }
}

/// Whether the address is link-local (self-assigned).
pub fn is_autoconf(ip: IpAddr) -> (r: bool)
    ensures
        r == autoconf_ip(ip),
{
    match ip {
        IpAddr::V4(a, b, _, _) => a == 169 && b == 254,
        IpAddr::V6(s0, _, _, _, _, _, _, _) => {
            let ll = s0 & 0xffc0;
            assert(ll == 0xfe80 <==> (0xfe80 <= s0 && s0 <= 0xfebf)) by (bit_vector)
                requires ll == s0 & 0xffc0;
            ll == 0xfe80
        },
    }
}

/// The netmask with `prefix` leading one bits.
pub open spec fn prefix_mask(prefix: u8) -> u32 {
    if prefix == 0 {
        0
    } else {
        (0xffff_ffffu32 << ((32 - prefix) as u32)) as u32
    }
}

/// The netmask of a prefix length (at most 32).
pub fn mask_from_prefix(prefix: u8) -> (m: u32)
    requires
        prefix <= 32,
    ensures
        m == prefix_mask(prefix),
{
    if prefix == 0 {
        0
    } else {
        u32::MAX << (32 - prefix as u32)
    }
}

/// The first host of the subnet: the network address plus one.
pub open spec fn first_host(addr: u32, mask: u32) -> int {
    (addr & mask) + 1
}

/// The last host of the subnet: the broadcast address minus one.
pub open spec fn last_host(addr: u32, mask: u32) -> int {
    (addr | !mask) - 1
}

/// How many hosts `subnet_hosts` lists: those strictly between the network
/// and the broadcast address, at most `max`.
pub open spec fn host_count(addr: u32, mask: u32, max: u32) -> int {
    let first = first_host(addr, mask);
    let last = last_host(addr, mask);
    if last < first {
        0
    } else if last - first + 1 <= max {
        last - first + 1
    } else {
        max as int
    }
}

/// The hosts of the subnet of `addr` under `mask`, from the network address
/// plus one up to the broadcast address minus one, at most `max` of them;
/// none where no address lies strictly between the two (a /31 or /32 mask).
pub fn subnet_hosts(addr: u32, mask: u32, max: u32) -> (hosts: Vec<u32>)
    ensures
        hosts@.len() == host_count(addr, mask, max),
        forall|i: int| 0 <= i < hosts@.len() ==> hosts@[i] == first_host(addr, mask) + i,
{
    let net = addr & mask;
    let bcast = addr | !mask;
    let mut hosts: Vec<u32> = Vec::new();
    if net == u32::MAX || bcast == 0 || bcast - 1 < net + 1 {
        return hosts;
    }
    let first: u32 = net + 1;
    let last: u32 = bcast - 1;
    let span: u32 = last - first;
    let len: u32 = if span < max { span + 1 } else { max };
    let mut i: u32 = 0;
    while i < len
        invariant
            i <= len,
            len <= span + 1,
            first as int + span == last,
            hosts@.len() == i,
            forall|j: int| 0 <= j < i ==> hosts@[j] == first + j,
        decreases len - i,
    {
        hosts.push(first + i);
        i += 1;
    }
    hosts
}

} // verus!
