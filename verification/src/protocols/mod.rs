//! Protocol engines: probe builders and reply parsers.

pub mod common;
pub mod engines;
pub mod dahua1;
pub mod json;
pub mod dahua2;
pub mod vivotek;
pub mod ubiquiti;
pub mod axis;
pub mod googlecast;
pub mod arecont;

pub use engines::registry;
pub mod vstarcam;
pub mod vision360;
pub mod tvt;
pub mod bosch;
pub mod lantronix;
pub mod sony;
pub mod panasonic;
pub mod gige;
pub mod arp;
pub mod hikvision;
pub mod mssql;
pub mod microchip;
pub mod foscam;
pub mod eden;
pub mod hanwha;
pub mod eaton;
pub mod cyberpower;
pub mod advantech;
pub mod nicevision;
pub mod ssdp;
pub mod wsd;
pub mod dispatch;
