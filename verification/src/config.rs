//! Scanner configuration (ten switches) and the library's error type.

use vstd::prelude::*;

verus! {

/// The ten switches of a scan.
#[derive(Debug, Clone, Copy, PartialEq, Eq, Structural)]
pub struct Config {
    pub enable_ipv4: bool,
    pub enable_ipv6: bool,
    pub force_link_local: bool,
    pub force_zeroconf: bool,
    pub force_generic_protocols: bool,
    pub debug_mode: bool,
    pub port_sharing: bool,
    pub onvif_verbatim: bool,
    pub dahua_net_scan: bool,
    pub arp_enabled: bool,
}

/// The built-in defaults.
pub open spec fn default_config() -> Config {
    Config {
        enable_ipv4: true,
        enable_ipv6: false,
        force_link_local: true,
        force_zeroconf: false,
        force_generic_protocols: false,
        debug_mode: false,
        port_sharing: true,
        onvif_verbatim: false,
        dahua_net_scan: false,
        arp_enabled: true,
    }
}

impl Default for Config {
    fn default() -> (c: Self)
        ensures
            c == default_config(),
    {
        Config {
            enable_ipv4: true,
            enable_ipv6: false,
            force_link_local: true,
            force_zeroconf: false,
            force_generic_protocols: false,
            debug_mode: false,
            port_sharing: true,
            onvif_verbatim: false,
            dahua_net_scan: false,
            arp_enabled: true,
        }
    }
}

/// Errors of the library.
#[derive(Debug)]
pub enum Error {
    Io(String),
    Pcap(String),
    Dns(String),
    Config(String),
    NoInterface,
    NoFreePort,
}

} // verus!
