//! ARP frames: building who-has requests and replies, and reading them back.

pub mod frame;
