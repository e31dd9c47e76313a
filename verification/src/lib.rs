//! Network device discovery library: packet builders, reply parsers and the
//! device table that deduplicates discoveries.

pub mod text;
pub mod bytes;
pub mod pcap;
pub mod arp;
pub mod ip;
pub mod devices;
pub mod config;
pub mod cli;
pub mod scan_config;
pub mod catalog;
pub mod output;
pub mod log;
pub mod mdns;
pub mod iface;
pub mod netscan;
pub mod ports;
pub mod oui;
pub mod tvt_provision;
pub mod protocols;
pub mod scanner;
pub mod selftest;
pub mod plan;
pub mod scan_loop;
