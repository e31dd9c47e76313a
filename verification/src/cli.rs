//! The command line as plain values: commands, scan arguments and output formats.

use vstd::prelude::*;

verus! {

/// The command line: a command, or none for a scan with default arguments.
#[derive(Debug)]
pub struct Cli {
    pub cmd: Option<Cmd>,
}

/// The commands.
#[derive(Debug)]
pub enum Cmd {
    /// Scan the network (the default command).
    Scan(ScanArgs),
    /// Replay the recorded replies, all of them or one engine's.
    Selftest { protocol: Option<String> },
    /// Wrap a recorded reply into a one-packet capture file.
    Selftest2pcap { in_file: String, out_file: String, dest_port: u16 },
    /// List the engines.
    ListProtocols,
    /// Download the vendor (OUI) database.
    UpdateOui,
    /// Send a TVT set-IP request (or print it).
    TvtSet(TvtSetArgs),
}

/// The arguments of a TVT set-IP request.
#[derive(Debug)]
pub struct TvtSetArgs {
    /// The target camera's MAC, `AA:BB:CC:DD:EE:FF`.
    pub mac: String,
    pub ip: [u8; 4],
    pub mask: [u8; 4],
    pub gateway: [u8; 4],
    pub password: String,
    pub dhcp: bool,
    /// The protocol version (0 for the default).
    pub version: u32,
    /// The interface address to send from, if one is chosen.
    pub interface: Option<[u8; 4]>,
    /// Print the packet instead of sending it.
    pub dry_run: bool,
}

/// How discoveries are printed.
#[derive(Debug, Clone, Copy, PartialEq, Eq, Structural)]
pub enum OutputFormat {
    Table,
    Csv,
    Json,
    Tsv,
}

impl Default for OutputFormat {
    fn default() -> (f: Self)
        ensures
            f == OutputFormat::Table,
    {
        OutputFormat::Table
    }
}

/// The arguments of a scan, with the ten switch pairs (`--x` / `--no-x`).
#[derive(Debug)]
pub struct ScanArgs {
    pub protocols: Option<Vec<String>>,
    pub format: OutputFormat,
    pub batch: bool,
    pub rescan: Option<u64>,
    pub timeout: Option<u64>,
    pub show_version: bool,
    pub no_color: bool,
    pub pcap_out: Option<String>,
    pub config: Option<String>,
    pub enable_ipv4: bool,
    pub disable_ipv4: bool,
    pub enable_ipv6: bool,
    pub disable_ipv6: bool,
    pub force_link_local: bool,
    pub no_force_link_local: bool,
    pub force_zeroconf: bool,
    pub no_force_zeroconf: bool,
    pub force_generic_protocols: bool,
    pub no_force_generic_protocols: bool,
    pub debug: bool,
    pub no_debug: bool,
    pub port_sharing: bool,
    pub no_port_sharing: bool,
    pub onvif_verbatim: bool,
    pub no_onvif_verbatim: bool,
    pub dahua_net_scan: bool,
    pub no_dahua_net_scan: bool,
    pub arp: bool,
    pub no_arp: bool,
}

/// Whether every switch of the arguments is off.
pub open spec fn no_switches(a: ScanArgs) -> bool {
    !a.enable_ipv4 && !a.disable_ipv4 && !a.enable_ipv6 && !a.disable_ipv6 && !a.force_link_local
        && !a.no_force_link_local && !a.force_zeroconf && !a.no_force_zeroconf && !a.force_generic_protocols
        && !a.no_force_generic_protocols && !a.debug && !a.no_debug && !a.port_sharing && !a.no_port_sharing
        && !a.onvif_verbatim && !a.no_onvif_verbatim && !a.dahua_net_scan && !a.no_dahua_net_scan && !a.arp
        && !a.no_arp
}

impl Default for ScanArgs {
    /// No protocol filter, table output, nothing else set.
    fn default() -> (a: Self)
        ensures
            a.protocols is None,
            a.format == OutputFormat::Table,
            !a.batch && !a.show_version && !a.no_color,
            a.rescan is None && a.timeout is None && a.pcap_out is None && a.config is None,
            no_switches(a),
    {
        ScanArgs {
            protocols: None,
            format: OutputFormat::Table,
            batch: false,
            rescan: None,
            timeout: None,
            show_version: false,
            no_color: false,
            pcap_out: None,
            config: None,
            enable_ipv4: false,
            disable_ipv4: false,
            enable_ipv6: false,
            disable_ipv6: false,
            force_link_local: false,
            no_force_link_local: false,
            force_zeroconf: false,
            no_force_zeroconf: false,
            force_generic_protocols: false,
            no_force_generic_protocols: false,
            debug: false,
            no_debug: false,
            port_sharing: false,
            no_port_sharing: false,
            onvif_verbatim: false,
            no_onvif_verbatim: false,
            dahua_net_scan: false,
            no_dahua_net_scan: false,
            arp: false,
            no_arp: false,
        }
    }
}

} // verus!
