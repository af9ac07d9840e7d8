use vstd::prelude::*;
use smoltcp::wire::{EthernetFrame, Ipv4Packet};

verus! {

/// Length of an Ethernet header.
pub const ETHERNET_HEADER_LEN: usize = 14;

/// EtherType of IPv4.
pub const ETHERTYPE_IPV4: u16 = 0x0800;

/// EtherType of ARP.
pub const ETHERTYPE_ARP: u16 = 0x0806;

/// IP protocol number of TCP.
pub const PROTOCOL_TCP: u8 = 0x06;

/// IP protocol number of UDP.
pub const PROTOCOL_UDP: u8 = 0x11;

/// The big-endian 16-bit integer at `i` of `b`.
pub open spec fn be16(b: Seq<u8>, i: int) -> u16 {
    (b[i] as int * 256 + b[i + 1] as int) as u16
}

/// The big-endian 32-bit integer at `i` of `b`.
pub open spec fn be32(b: Seq<u8>, i: int) -> u32 {
    (be16(b, i) as int * 65536 + be16(b, i + 2) as int) as u32
}

/// Length of the IPv4 header that `p` starts with, from its IHL field.
pub open spec fn ipv4_header_len(p: Seq<u8>) -> int {
    (p[0] % 16) as int * 4
}

/// Whether `p` holds a whole IPv4 packet as far as its length fields go.
pub open spec fn ipv4_fits(p: Seq<u8>) -> bool {
    p.len() >= 20 && p.len() >= ipv4_header_len(p) && ipv4_header_len(p) <= be16(p, 2)
        && p.len() >= be16(p, 2)
}

/// Relies on `smoltcp::wire::EthernetFrame::new_checked` and `ethertype`:
/// a buffer shorter than the header is refused; otherwise the EtherType
/// is the big-endian field at bytes 12 and 13, which `u16::from` gives back.
#[verifier::external_body]
fn ether_type(b: &[u8]) -> (r: Option<u16>)
    ensures
        r is Some <==> b@.len() >= ETHERNET_HEADER_LEN,
        r matches Some(t) ==> t == be16(b@, 12),
{
    match EthernetFrame::new_checked(b) {
        Ok(f) => Some(u16::from(f.ethertype())),
        Err(_) => None,
    }
}

/// Relies on `smoltcp::wire::Ipv4Packet::new_checked`, `protocol` and
/// `header_len` on the bytes of `b` from `at` on: refused unless the length
/// fields fit the buffer; otherwise the protocol byte at 9 and the header
/// length from the IHL field.
#[verifier::external_body]
fn ipv4_header(b: &[u8], at: usize) -> (r: Option<(u8, usize)>)
    requires
        at <= b@.len(),
    ensures
        r is Some <==> ipv4_fits(b@.subrange(at as int, b@.len() as int)),
        r matches Some((proto, hl)) ==> proto == b@[at + 9]
            && hl == ipv4_header_len(b@.subrange(at as int, b@.len() as int)),
{
    match Ipv4Packet::new_checked(&b[at..]) {
        Ok(p) => Some((u8::from(p.protocol()), p.header_len() as usize)),
        Err(_) => None,
    }
}

/// Source and destination port of a TCP or UDP header.
#[derive(PartialEq, Eq, Structural, Debug, Clone, Copy)]
pub struct Ports {
    pub src: u16,
    pub dst: u16,
}

/// What the diagnostic tap learns of a frame.
#[derive(PartialEq, Eq, Structural, Debug, Clone, Copy)]
pub enum FrameSummary {
    /// Shorter than an Ethernet header.
    Truncated,
    /// An IPv4 packet; the ports are there for TCP and UDP with room for them.
    Ipv4 { src: u32, dst: u32, protocol: u8, ports: Option<Ports> },
    /// IPv4 whose length fields do not fit the frame.
    Ipv4Malformed,
    /// An ARP packet.
    Arp,
    /// Any other EtherType.
    Other(u16),
}

/// The source and destination ports of a TCP or UDP header at `at` of `b`,
/// when the four bytes are there.
pub open spec fn ports_at(b: Seq<u8>, at: int) -> Option<Ports> {
    if at + 4 <= b.len() {
        Some(Ports { src: be16(b, at), dst: be16(b, at + 2) })
    } else {
        None
    }
}

/// What the tap reports of the frame `b`.
pub open spec fn summary_of(b: Seq<u8>) -> FrameSummary {
    if b.len() < ETHERNET_HEADER_LEN {
        FrameSummary::Truncated
    } else if be16(b, 12) == ETHERTYPE_IPV4 {
        let p = b.subrange(ETHERNET_HEADER_LEN as int, b.len() as int);
        if !ipv4_fits(p) {
            FrameSummary::Ipv4Malformed
        } else {
            let proto = p[9];
            let l4 = ETHERNET_HEADER_LEN + ipv4_header_len(p);
            FrameSummary::Ipv4 {
                src: be32(p, 12),
                dst: be32(p, 16),
                protocol: proto,
                ports: if proto == PROTOCOL_TCP || proto == PROTOCOL_UDP { ports_at(b, l4) } else { None },
            }
        }
    } else if be16(b, 12) == ETHERTYPE_ARP {
        FrameSummary::Arp
    } else {
        FrameSummary::Other(be16(b, 12))
    }
}

fn read_be16(b: &[u8], i: usize) -> (r: u16)
    requires
        i + 2 <= b@.len(),
    ensures
        r == be16(b@, i as int),
{
    (b[i] as u16) * 256 + (b[i + 1] as u16)
}

fn read_be32(b: &[u8], i: usize) -> (r: u32)
    requires
        i + 4 <= b@.len(),
    ensures
        r == be32(b@, i as int),
{
    // The slice's length is a usize, which bounds `i + 2`.
    let len = b.len();
    assert(i + 2 <= len);
    let hi = read_be16(b, i) as u32;
    let lo = read_be16(b, i + 2) as u32;
    hi * 65536 + lo
}

/// Decodes the Ethernet header of a frame and, for IPv4, its addresses,
/// protocol and TCP or UDP ports. Never fails: a short or malformed frame
/// gets its own summary.
pub fn dump_packet_info(b: &[u8]) -> (s: FrameSummary)
    ensures
        s == summary_of(b@),
{
    match ether_type(b) {
        None => FrameSummary::Truncated,
        Some(t) => {
            if t == ETHERTYPE_IPV4 {
                let ghost p = b@.subrange(ETHERNET_HEADER_LEN as int, b@.len() as int);
                match ipv4_header(b, ETHERNET_HEADER_LEN) {
                    None => FrameSummary::Ipv4Malformed,
                    Some((proto, hl)) => {
                        let at = ETHERNET_HEADER_LEN;
                        assert(b@[at + 9] == p[9]);
                        let src = read_be32(b, at + 12);
                        let dst = read_be32(b, at + 16);
                        assert(be32(b@, at + 12) == be32(p, 12));
                        assert(be32(b@, at + 16) == be32(p, 16));
                        let l4 = at + hl;
                        let ports = if proto == PROTOCOL_TCP || proto == PROTOCOL_UDP {
                            if l4 <= b.len() && b.len() - l4 >= 4 {
                                Some(Ports { src: read_be16(b, l4), dst: read_be16(b, l4 + 2) })
                            } else {
                                None
                            }
                        } else {
                            None
                        };
                        FrameSummary::Ipv4 { src, dst, protocol: proto, ports }
                    },
                }
            } else if t == ETHERTYPE_ARP {
                FrameSummary::Arp
            } else {
                FrameSummary::Other(t)
            }
        },
    }
}

} // verus!
