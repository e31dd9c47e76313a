//! The Dahua subnet scan: which hosts of an interface's subnet are probed.

use vstd::prelude::*;
use crate::protocols::arp::{sweep_hosts, sweep_plan};

verus! {

/// The hosts probed from an interface address (`u32`, most significant
/// octet first): the subnet's hosts, at most 254, other than the address.
pub fn plan_hosts(if_ip: u32, mask: u32) -> (hosts: Vec<u32>)
    ensures
        hosts@ == sweep_hosts(if_ip, mask),
{
    sweep_plan(if_ip, mask)
}

} // verus!
