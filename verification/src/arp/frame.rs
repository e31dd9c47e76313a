//! Ethernet II frames carrying ARP for IPv4 (42 bytes).
//!
//! IPv4 addresses are four octets, most significant first.

use vstd::prelude::*;
use crate::bytes::be16;

verus! {

pub const ETH_ARP: u16 = 0x0806;
pub const ARP_OP_REQUEST: u16 = 1;
pub const ARP_OP_REPLY: u16 = 2;
pub const FRAME_LEN: usize = 42;

/// The fields of an ARP frame.
#[derive(Debug, Clone, Copy, PartialEq, Eq)]
pub struct ArpFrame {
    pub op: u16,
    pub src_mac: [u8; 6],
    pub sender_ip: [u8; 4],
    pub target_mac: [u8; 6],
    pub target_ip: [u8; 4],
}

/// A frame: destination MAC, source MAC, type 0x0806, then hardware type
/// Ethernet, protocol IPv4, sizes 6 and 4, the operation, sender MAC and
/// address, target MAC and address.
pub open spec fn frame_bytes(dst: Seq<u8>, op: u16, src_mac: Seq<u8>, sender_ip: Seq<u8>, target_mac: Seq<u8>, target_ip: Seq<u8>) -> Seq<u8> {
    dst + src_mac + seq![0x08u8, 0x06, 0x00, 0x01, 0x08, 0x00, 6, 4] + be16(op) + src_mac + sender_ip + target_mac + target_ip
}

fn build(dst: [u8; 6], op: u16, src_mac: [u8; 6], sender_ip: [u8; 4], target_mac: [u8; 6], target_ip: [u8; 4]) -> (f: [u8; 42])
    ensures
        f@ == frame_bytes(dst@, op, src_mac@, sender_ip@, target_mac@, target_ip@),
{
    let mut f = [0u8; 42];
    let mut i: usize = 0;
    while i < 6
        invariant
            i <= 6,
            forall|j: int| 0 <= j < i ==> f@[j] == dst@[j] && f@[6 + j] == src_mac@[j] && f@[22 + j] == src_mac@[j]
                && f@[32 + j] == target_mac@[j],
            forall|j: int| 0 <= j < 4 && j < i ==> f@[28 + j] == sender_ip@[j] && f@[38 + j] == target_ip@[j],
        decreases 6 - i,
    {
        f[i] = dst[i];
        f[6 + i] = src_mac[i];
        f[22 + i] = src_mac[i];
        f[32 + i] = target_mac[i];
        if i < 4 {
            f[28 + i] = sender_ip[i];
            f[38 + i] = target_ip[i];
        }
        i += 1;
    }
    f[12] = 0x08;
    f[13] = 0x06;
    f[14] = 0x00;
    f[15] = 0x01;
    f[16] = 0x08;
    f[17] = 0x00;
    f[18] = 6;
    f[19] = 4;
    f[20] = (op / 256) as u8;
    f[21] = (op % 256) as u8;
    assert(f@ =~= frame_bytes(dst@, op, src_mac@, sender_ip@, target_mac@, target_ip@));
    f
}

/// A who-has request, broadcast, asking for `target_ip`.
pub open spec fn request_bytes(src_mac: Seq<u8>, sender_ip: Seq<u8>, target_ip: Seq<u8>) -> Seq<u8> {
    frame_bytes(Seq::new(6, |i: int| 0xFFu8), 1, src_mac, sender_ip, Seq::new(6, |i: int| 0u8), target_ip)
}

pub fn build_request(src_mac: [u8; 6], sender_ip: [u8; 4], target_ip: [u8; 4]) -> (f: [u8; 42])
    ensures
        f@ == request_bytes(src_mac@, sender_ip@, target_ip@),
{
    let b = [0xFFu8; 6];
    let z = [0u8; 6];
    assert(b@ =~= Seq::new(6, |i: int| 0xFFu8));
    assert(z@ =~= Seq::new(6, |i: int| 0u8));
    build(b, ARP_OP_REQUEST, src_mac, sender_ip, z, target_ip)
}

/// A reply (destination MAC left zero).
pub open spec fn reply_bytes(src_mac: Seq<u8>, sender_ip: Seq<u8>, target_mac: Seq<u8>, target_ip: Seq<u8>) -> Seq<u8> {
    frame_bytes(Seq::new(6, |i: int| 0u8), 2, src_mac, sender_ip, target_mac, target_ip)
}

pub fn build_reply(src_mac: [u8; 6], sender_ip: [u8; 4], target_mac: [u8; 6], target_ip: [u8; 4]) -> (f: [u8; 42])
    ensures
        f@ == reply_bytes(src_mac@, sender_ip@, target_mac@, target_ip@),
{
    let z = [0u8; 6];
    assert(z@ =~= Seq::new(6, |i: int| 0u8));
    build(z, ARP_OP_REPLY, src_mac, sender_ip, target_mac, target_ip)
}

/// Whether bytes are an ARP frame: at least 42 bytes of type 0x0806.
pub open spec fn is_arp_frame(b: Seq<u8>) -> bool {
    b.len() >= 42 && b[12] == 0x08 && b[13] == 0x06
}

/// The fields read from an ARP frame.
pub open spec fn frame_fields(b: Seq<u8>, f: ArpFrame) -> bool {
    &&& f.op == b[20] as int * 256 + b[21] as int
    &&& f.src_mac@ == b.subrange(22, 28)
    &&& f.sender_ip@ == b.subrange(28, 32)
    &&& f.target_mac@ == b.subrange(32, 38)
    &&& f.target_ip@ == b.subrange(38, 42)
}

/// Reads an ARP frame; `None` for a short frame or another Ethernet type.
pub fn parse(frame: &[u8]) -> (r: Option<ArpFrame>)
    ensures
        match r {
            Some(f) => is_arp_frame(frame@) && frame_fields(frame@, f),
            None => !is_arp_frame(frame@),
        },
{
    if frame.len() < FRAME_LEN || !(frame[12] == 0x08 && frame[13] == 0x06) {
        return None;
    }
    let f = ArpFrame {
        op: frame[20] as u16 * 256 + frame[21] as u16,
        src_mac: [frame[22], frame[23], frame[24], frame[25], frame[26], frame[27]],
        sender_ip: [frame[28], frame[29], frame[30], frame[31]],
        target_mac: [frame[32], frame[33], frame[34], frame[35], frame[36], frame[37]],
        target_ip: [frame[38], frame[39], frame[40], frame[41]],
    };
    assert(f.src_mac@ =~= frame@.subrange(22, 28));
    assert(f.sender_ip@ =~= frame@.subrange(28, 32));
    assert(f.target_mac@ =~= frame@.subrange(32, 38));
    assert(f.target_ip@ =~= frame@.subrange(38, 42));
    Some(f)
}

/// A gratuitous ARP: a request whose sender and target addresses agree.
pub open spec fn garp(f: ArpFrame) -> bool {
    f.op == 1 && f.sender_ip@ == f.target_ip@
}

pub fn is_garp(f: &ArpFrame) -> (r: bool)
    ensures
        r == garp(*f),
{
    let same = f.sender_ip[0] == f.target_ip[0] && f.sender_ip[1] == f.target_ip[1] && f.sender_ip[2] == f.target_ip[2]
        && f.sender_ip[3] == f.target_ip[3];
    assert(same <==> f.sender_ip@ =~= f.target_ip@);
    f.op == ARP_OP_REQUEST && same
}

/// Reading a built request gives back its fields: operation 1, the sender's
/// MAC and address, a zero target MAC and the target address; it is a
/// gratuitous ARP exactly when the two addresses agree.
pub proof fn law_request_roundtrip(src_mac: [u8; 6], sender_ip: [u8; 4], target_ip: [u8; 4], f: ArpFrame)
    requires
        frame_fields(request_bytes(src_mac@, sender_ip@, target_ip@), f),
    ensures
        is_arp_frame(request_bytes(src_mac@, sender_ip@, target_ip@)),
        f.op == ARP_OP_REQUEST,
        f.src_mac@ == src_mac@,
        f.sender_ip@ == sender_ip@,
        f.target_mac@ == Seq::new(6, |i: int| 0u8),
        f.target_ip@ == target_ip@,
        garp(f) <==> sender_ip@ == target_ip@,
{
    let b = request_bytes(src_mac@, sender_ip@, target_ip@);
    assert(b.subrange(22, 28) =~= src_mac@);
    assert(b.subrange(28, 32) =~= sender_ip@);
    assert(b.subrange(32, 38) =~= Seq::new(6, |i: int| 0u8));
    assert(b.subrange(38, 42) =~= target_ip@);
}

/// Reading a built reply gives back its fields, with operation 2; a reply is
/// never a gratuitous ARP.
pub proof fn law_reply_roundtrip(src_mac: [u8; 6], sender_ip: [u8; 4], target_mac: [u8; 6], target_ip: [u8; 4], f: ArpFrame)
    requires
        frame_fields(reply_bytes(src_mac@, sender_ip@, target_mac@, target_ip@), f),
    ensures
        is_arp_frame(reply_bytes(src_mac@, sender_ip@, target_mac@, target_ip@)),
        f.op == ARP_OP_REPLY,
        f.src_mac@ == src_mac@,
        f.sender_ip@ == sender_ip@,
        f.target_mac@ == target_mac@,
        f.target_ip@ == target_ip@,
        !garp(f),
{
    let b = reply_bytes(src_mac@, sender_ip@, target_mac@, target_ip@);
    assert(b.subrange(22, 28) =~= src_mac@);
    assert(b.subrange(28, 32) =~= sender_ip@);
    assert(b.subrange(32, 38) =~= target_mac@);
    assert(b.subrange(38, 42) =~= target_ip@);
}

} // verus!
