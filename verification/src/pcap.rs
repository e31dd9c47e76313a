//! Capture files in the classic pcap format: the global header and one
//! record per UDP datagram over IPv4, framed as Ethernet II.

use vstd::prelude::*;
use crate::ip::IpAddr;
use crate::bytes::{le32, be16, push_le32, push_be16, push_all};

verus! {

/// The 24-byte global header: magic `0xa1b2c3d4` (little-endian), version
/// 2.4, zone and accuracy 0, snapshot length 1500, link type 1 (Ethernet).
pub open spec fn global_header_bytes() -> Seq<u8> {
    seq![0xd4u8, 0xc3, 0xb2, 0xa1, 0x02, 0x00, 0x04, 0x00, 0, 0, 0, 0, 0, 0, 0, 0, 0xdc, 0x05, 0, 0, 1, 0, 0, 0]
}

pub fn global_header() -> (h: Vec<u8>)
    ensures
        h@ == global_header_bytes(),
{
    let h: Vec<u8> = vec![0xd4u8, 0xc3, 0xb2, 0xa1, 0x02, 0x00, 0x04, 0x00, 0, 0, 0, 0, 0, 0, 0, 0, 0xdc, 0x05, 0, 0, 1, 0, 0, 0];
    assert(h@ =~= global_header_bytes());
    h
}

/// The made-up MAC of an endpoint: `02:00:00` and the last three octets of its address.
pub open spec fn endpoint_mac(b: u8, c: u8, d: u8) -> Seq<u8> {
    seq![0x02u8, 0x00, 0x00, b, c, d]
}

/// One record: the time (seconds truncated to 32 bits, microseconds), the
/// captured and original lengths (both the frame length), then the frame:
/// Ethernet II (destination, source, type 0x0800), an IPv4 header (version 4,
/// length 20, total length, TTL 254, protocol 17, zero identification, flags
/// and checksum), a UDP header (ports, length, zero checksum) and the payload.
pub open spec fn udp_record_bytes(secs: u64, micros: u32, src: (u8, u8, u8, u8), sport: u16, dst: (u8, u8, u8, u8), dport: u16, payload: Seq<u8>) -> Seq<u8> {
    let udp_len = (8 + payload.len()) as u16;
    let ip_len = (20 + udp_len) as u16;
    let frame_len = (14 + ip_len) as u32;
    le32(secs as u32) + le32(micros) + le32(frame_len) + le32(frame_len)
        + endpoint_mac(dst.1, dst.2, dst.3) + endpoint_mac(src.1, src.2, src.3) + seq![0x08u8, 0x00]
        + seq![0x45u8, 0x00] + be16(ip_len) + seq![0u8, 0, 0, 0, 254, 17, 0, 0]
        + seq![src.0, src.1, src.2, src.3] + seq![dst.0, dst.1, dst.2, dst.3]
        + be16(sport) + be16(dport) + be16(udp_len) + seq![0u8, 0] + payload
}

/// The record for a UDP datagram between two IPv4 endpoints; `None` when
/// either endpoint is IPv6 (such datagrams are not recorded). The time is
/// seconds and microseconds since the Unix epoch.
pub fn udp_record(secs: u64, micros: u32, src: IpAddr, sport: u16, dst: IpAddr, dport: u16, payload: &[u8]) -> (r: Option<Vec<u8>>)
    requires
        payload.len() <= 65493,
    ensures
        match (src, dst) {
            (IpAddr::V4(a, b, c, d), IpAddr::V4(e, f, g, h)) => r matches Some(v) && v@ == udp_record_bytes(
                secs, micros, (a, b, c, d), sport, (e, f, g, h), dport, payload@),
            _ => r is None,
        },
{
    let (s0, s1, s2, s3, d0, d1, d2, d3) = match (src, dst) {
        (IpAddr::V4(a, b, c, d), IpAddr::V4(e, f, g, h)) => (a, b, c, d, e, f, g, h),
        _ => return None,
    };
    let udp_len: u16 = 8 + payload.len() as u16;
    let ip_len: u16 = 20 + udp_len;
    let frame_len: u32 = (14 + ip_len) as u32;
    let mut rec: Vec<u8> = Vec::new();
    push_le32(&mut rec, secs as u32);
    push_le32(&mut rec, micros);
    push_le32(&mut rec, frame_len);
    push_le32(&mut rec, frame_len);
    let eth: Vec<u8> = vec![0x02u8, 0x00, 0x00, d1, d2, d3, 0x02, 0x00, 0x00, s1, s2, s3, 0x08, 0x00, 0x45, 0x00];
    push_all(&mut rec, eth.as_slice());
    push_be16(&mut rec, ip_len);
    let ip: Vec<u8> = vec![0u8, 0, 0, 0, 254, 17, 0, 0, s0, s1, s2, s3, d0, d1, d2, d3];
    push_all(&mut rec, ip.as_slice());
    push_be16(&mut rec, sport);
    push_be16(&mut rec, dport);
    push_be16(&mut rec, udp_len);
    rec.push(0);
    rec.push(0);
    push_all(&mut rec, payload);
    proof {
        assert(rec@ =~= udp_record_bytes(secs, micros, (s0, s1, s2, s3), sport, (d0, d1, d2, d3), dport, payload@));
    }
    Some(rec)
}

/// The running record count after one attempt to append a record: one more
/// than before when the record was written, `None` when it was not (an
/// IPv6 endpoint or a failed write), in which case the count stays.
pub fn appended(count: u64, wrote: bool) -> (r: Option<u64>)
    requires
        count < u64::MAX,
    ensures
        r == (if wrote { Some((count + 1) as u64) } else { None::<u64> }),
{
    if wrote {
        Some(count + 1)
    } else {
        None
    }
}

} // verus!
