# universal_scanner

A network device discovery library (cameras, access control, UPS and other
devices that answer UDP broadcast, multicast or mDNS probes) with its
behaviour stated in Verus contracts and proved, and `uscan`, a command-line
front end around it.

## Layout

- `src/` — the verified library:
  - `protocols/` — one module per engine: the probe it sends and the parser
    of its answers, each parser specified by a spec function over the bytes;
    `engines.rs` holds the registry, the engines of a scan (the registry and
    the ARP engine) and those of the engine list (plus TVT), `dispatch.rs`
    hands a datagram (or, for ARP, a captured frame) to an engine's parser.
  - `devices.rs` — discovered devices and the table that deduplicates them
    (keys by address, or by protocol and address; higher versions win).
  - `scanner.rs`, `plan.rs` — engine selection by protocol name, and what each
    engine listens on and sends where.
  - `scan_loop.rs` — the scan loop's decisions: each report, clock tick or
    interrupt becomes an action (print a row, send a round of probes, wait,
    or finish with the batch rows and an exit code).
  - `scan_config.rs`, `config.rs`, `cli.rs` — the ten switches: defaults,
    configuration file keys and command-line flags, merged in that order.
  - `output.rs` — table, CSV, TSV and JSON rows.
  - `mdns.rs` — DNS names, Punycode/IDN, and the conversion shared by the mDNS
    engines.
  - `arp/`, `pcap.rs`, `iface.rs`, `netscan.rs`, `ports.rs`, `oui.rs`,
    `tvt_provision.rs`, `selftest.rs`, `log.rs`, `ip.rs`, `text.rs`,
    `bytes.rs` — frames, capture records, subnet arithmetic, port choice,
    vendor lookup, TVT provisioning, recorded-answer replays, logging, address
    text and helpers.
- `tests/` — tests run against the compiled library.
- `app/` — `uscan`: argument parsing, configuration file lookup, sockets,
  ARP capture through libpcap (skipped with a warning where capture rights
  are missing), timers, files and printing.

Laws that relate several functions are public proof functions named `law_*`.
