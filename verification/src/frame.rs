use vstd::prelude::*;

use pnet::packet::ethernet::EthernetPacket;
use pnet::packet::ipv4::Ipv4Packet;
use pnet::packet::udp::UdpPacket;
use pnet::packet::Packet;

use crate::wire::be16;

verus! {

/// The UDP port that MNDP announcements are sent to.
pub const MNDP_PORT: u16 = 5678;

/// The EtherType of IPv4.
pub const ETHERTYPE_IPV4: u16 = 0x0800;

/// The IPv4 protocol number of UDP.
pub const IP_PROTOCOL_UDP: u8 = 17;

/// An Ethernet frame as far as the filter reads it.
#[derive(Debug, Clone, PartialEq, Eq)]
pub struct EthernetFrame {
    pub ethertype: u16,
    pub payload: Vec<u8>,
}

/// An IPv4 packet as far as the filter reads it.
#[derive(Debug, Clone, PartialEq, Eq)]
pub struct Ipv4Datagram {
    pub source: [u8; 4],
    pub destination: [u8; 4],
    pub next_level_protocol: u8,
    pub payload: Vec<u8>,
}

/// A UDP datagram as far as the filter reads it.
#[derive(Debug, Clone, PartialEq, Eq)]
pub struct UdpDatagram {
    pub source: u16,
    pub destination: u16,
    pub payload: Vec<u8>,
}

/// The Ethernet header of a frame: at least 14 bytes, the EtherType in
/// bytes 12 and 13 (big-endian), the payload from byte 14 on.
pub open spec fn spec_ethernet(frame: Seq<u8>) -> Option<(u16, Seq<u8>)> {
    if frame.len() < 14 {
        None
    } else {
        Some((be16(frame[12], frame[13]), frame.skip(14)))
    }
}

/// The source and destination addresses of an IPv4 packet of at least 20
/// bytes: bytes 12..16 and 16..20.
pub open spec fn spec_ipv4_addresses(packet: Seq<u8>) -> (Seq<u8>, Seq<u8>) {
    (packet.subrange(12, 16), packet.subrange(16, 20))
}

/// The IPv4 header of a packet: at least 20 bytes, the protocol in byte 9;
/// the payload starts after the header (its length is the low nibble of
/// byte 0, in 4-byte words, and never less than 20 bytes) and runs for the
/// total length (bytes 2 and 3, big-endian) less the header, cut at the end
/// of the packet.
pub open spec fn spec_ipv4(packet: Seq<u8>) -> Option<(u8, Seq<u8>)> {
    if packet.len() < 20 {
        None
    } else {
        let header = (packet[0] % 16) as int * 4;
        let start = if header > 20 { header } else { 20 };
        let total = be16(packet[2], packet[3]) as int;
        let body = if total > header { total - header } else { 0 };
        let end = if start + body < packet.len() { start + body } else { packet.len() as int };
        let payload = if packet.len() <= start { Seq::empty() } else { packet.subrange(start, end) };
        Some((packet[9], payload))
    }
}

/// The source port of a UDP datagram of at least 8 bytes: bytes 0 and 1,
/// big-endian.
pub open spec fn spec_udp_source(datagram: Seq<u8>) -> u16 {
    be16(datagram[0], datagram[1])
}

/// The UDP header of a datagram: at least 8 bytes, the destination port in
/// bytes 2 and 3 (big-endian), the payload from byte 8 on.
pub open spec fn spec_udp(datagram: Seq<u8>) -> Option<(u16, Seq<u8>)> {
    if datagram.len() < 8 {
        None
    } else {
        Some((be16(datagram[2], datagram[3]), datagram.skip(8)))
    }
}

/// Reads a frame with `pnet`'s `EthernetPacket::new`, then its
/// `get_ethertype` and `payload`. `EthernetPacket::new` accepts exactly the
/// buffers of at least 14 bytes; the EtherType is the big-endian field at
/// bytes 12..14 and the payload the bytes after 14, as the `#[packet]`
/// declaration of `Ethernet` lays them out.
#[verifier::external_body]
fn parse_ethernet(frame: &[u8]) -> (r: Option<EthernetFrame>)
    ensures
        match spec_ethernet(frame@) {
            Some((t, p)) => r is Some && r->0.ethertype == t && r->0.payload@ == p,
            None => r is None,
        },
{
    match EthernetPacket::new(frame) {
        Some(packet) => Some(
            EthernetFrame { ethertype: packet.get_ethertype().0, payload: packet.payload().to_vec() },
        ),
        None => None,
    }
}

/// Reads a packet with `pnet`'s `Ipv4Packet::new`, then its
/// `get_source`, `get_destination`, `get_next_level_protocol` and `payload`.
/// `Ipv4Packet::new` accepts exactly the buffers of at least 20 bytes; the
/// addresses are bytes 12..16 and 16..20, the protocol is byte 9, and the
/// payload is bounded by the header length and the total length as
/// `ipv4_options_length` and `ipv4_payload_length` compute them.
#[verifier::external_body]
fn parse_ipv4(packet: &[u8]) -> (r: Option<Ipv4Datagram>)
    ensures
        match spec_ipv4(packet@) {
            Some((proto, p)) => {
                &&& r is Some
                &&& r->0.next_level_protocol == proto
                &&& r->0.payload@ == p
                &&& r->0.source@ == spec_ipv4_addresses(packet@).0
                &&& r->0.destination@ == spec_ipv4_addresses(packet@).1
            },
            None => r is None,
        },
{
    match Ipv4Packet::new(packet) {
        Some(ip) => Some(
            Ipv4Datagram {
                source: ip.get_source().octets(),
                destination: ip.get_destination().octets(),
                next_level_protocol: ip.get_next_level_protocol().0,
                payload: ip.payload().to_vec(),
            },
        ),
        None => None,
    }
}

/// Reads a datagram with `pnet`'s `UdpPacket::new`, then its
/// `get_source`, `get_destination` and `payload`. `UdpPacket::new` accepts
/// exactly the buffers of at least 8 bytes; the source and destination ports
/// are the big-endian fields at bytes 0..2 and 2..4 and the payload the bytes
/// after 8.
#[verifier::external_body]
fn parse_udp(datagram: &[u8]) -> (r: Option<UdpDatagram>)
    ensures
        match spec_udp(datagram@) {
            Some((port, p)) => {
                &&& r is Some
                &&& r->0.destination == port
                &&& r->0.payload@ == p
                &&& r->0.source == spec_udp_source(datagram@)
            },
            None => r is None,
        },
{
    match UdpPacket::new(datagram) {
        Some(udp) => Some(
            UdpDatagram {
                source: udp.get_source(),
                destination: udp.get_destination(),
                payload: udp.payload().to_vec(),
            },
        ),
        None => None,
    }
}

impl EthernetFrame {
    /// Reads the Ethernet header of a captured frame; `None` where the frame
    /// is too short to hold one.
    pub fn new(frame: &[u8]) -> (r: Option<EthernetFrame>)
        ensures
            match spec_ethernet(frame@) {
                Some((t, p)) => r is Some && r->0.ethertype == t && r->0.payload@ == p,
                None => r is None,
            },
    {
        parse_ethernet(frame)
    }
}

/// The IPv4 packet that an Ethernet frame carries, if it carries one.
pub fn get_ipv4_packet(ether_packet: &EthernetFrame) -> (r: Result<Ipv4Datagram, ()>)
    ensures
        ether_packet.ethertype == ETHERTYPE_IPV4 && spec_ipv4(ether_packet.payload@) is Some ==> {
            &&& r is Ok
            &&& r->Ok_0.next_level_protocol == (spec_ipv4(ether_packet.payload@)->0).0
            &&& r->Ok_0.payload@ == (spec_ipv4(ether_packet.payload@)->0).1
            &&& r->Ok_0.source@ == spec_ipv4_addresses(ether_packet.payload@).0
            &&& r->Ok_0.destination@ == spec_ipv4_addresses(ether_packet.payload@).1
        },
        !(ether_packet.ethertype == ETHERTYPE_IPV4 && spec_ipv4(ether_packet.payload@) is Some)
            ==> r == Err::<Ipv4Datagram, ()>(()),
{
    if ether_packet.ethertype == ETHERTYPE_IPV4 {
        match parse_ipv4(ether_packet.payload.as_slice()) {
            Some(ip) => return Ok(ip),
            None => {},
        }
    }
    Err(())
}

/// The UDP datagram that an IPv4 packet carries, if it carries one.
pub fn get_udp_packet(ip_packet: &Ipv4Datagram) -> (r: Result<UdpDatagram, ()>)
    ensures
        ip_packet.next_level_protocol == IP_PROTOCOL_UDP && spec_udp(ip_packet.payload@) is Some ==> {
            &&& r is Ok
            &&& r->Ok_0.destination == (spec_udp(ip_packet.payload@)->0).0
            &&& r->Ok_0.payload@ == (spec_udp(ip_packet.payload@)->0).1
            &&& r->Ok_0.source == spec_udp_source(ip_packet.payload@)
        },
        !(ip_packet.next_level_protocol == IP_PROTOCOL_UDP && spec_udp(ip_packet.payload@) is Some)
            ==> r == Err::<UdpDatagram, ()>(()),
{
    if ip_packet.next_level_protocol == IP_PROTOCOL_UDP {
        match parse_udp(ip_packet.payload.as_slice()) {
            Some(udp) => return Ok(udp),
            None => {},
        }
    }
    Err(())
}

/// The MNDP datagram that a captured Ethernet frame carries: the frame holds
/// IPv4, the packet holds UDP, and the datagram goes to the MNDP port.
pub open spec fn spec_mndp_payload(frame: Seq<u8>) -> Option<Seq<u8>> {
    match spec_ethernet(frame) {
        Some((ethertype, ip)) => if ethertype == ETHERTYPE_IPV4 {
            match spec_ipv4(ip) {
                Some((proto, udp)) => if proto == IP_PROTOCOL_UDP {
                    match spec_udp(udp) {
                        Some((port, payload)) => if port == MNDP_PORT {
                            Some(payload)
                        } else {
                            None
                        },
                        None => None,
                    }
                } else {
                    None
                },
                None => None,
            }
        } else {
            None
        },
        None => None,
    }
}

/// Picks the MNDP datagram out of a captured Ethernet frame; `None` for
/// every frame that is not a UDP datagram over IPv4 to the MNDP port.
pub fn mndp_payload(frame: &[u8]) -> (r: Option<Vec<u8>>)
    ensures
        match spec_mndp_payload(frame@) {
            Some(p) => r is Some && r->0@ == p,
            None => r is None,
        },
{
    let ethernet_packet = match EthernetFrame::new(frame) {
        Some(e) => e,
        None => return None,
    };
    let ipv4_packet = match get_ipv4_packet(&ethernet_packet) {
        Ok(ip) => ip,
        Err(()) => return None,
    };
    let udp_packet = match get_udp_packet(&ipv4_packet) {
        Ok(udp) => udp,
        Err(()) => return None,
    };
    if udp_packet.destination == MNDP_PORT {
        Some(udp_packet.payload)
    } else {
        None
    }
}

/// A frame carrying IPv4 (EtherType bytes `08 00`) with a plain 20-byte
/// header (first IP byte `0x45`), protocol UDP (17), a total length that
/// covers the rest of the frame, and destination port 5678 (bytes `16 2e`)
/// yields everything after the 8-byte UDP header, i.e. the frame from byte
/// 42 on.
pub proof fn lemma_mndp_payload_of_plain_frame(frame: Seq<u8>)
    requires
        42 <= frame.len() <= 14 + 0xffff,
        frame[12] == 0x08,
        frame[13] == 0x00,
        frame[14] == 0x45,
        frame[16] as int * 256 + frame[17] as int == frame.len() - 14,
        frame[23] == 17,
        frame[36] == 0x16,
        frame[37] == 0x2e,
    ensures
        spec_mndp_payload(frame) == Some(frame.skip(42)),
{
    let ip = frame.skip(14);
    assert(ip[0] == 0x45 && ip[2] == frame[16] && ip[3] == frame[17] && ip[9] == 17);
    assert(0x45u8 % 16 == 5);
    assert(ip.subrange(20, ip.len() as int) =~= ip.skip(20));
    let udp = ip.skip(20);
    assert(udp[2] == 0x16 && udp[3] == 0x2e);
    assert(udp.skip(8) =~= frame.skip(42));
}

/// A frame that does not carry IPv4 (its EtherType bytes are not `08 00`)
/// yields nothing.
pub proof fn lemma_mndp_payload_needs_ipv4(frame: Seq<u8>)
    requires
        frame.len() < 14 || frame[12] != 0x08 || frame[13] != 0x00,
    ensures
        spec_mndp_payload(frame) is None,
{
    if frame.len() >= 14 {
        assert(frame[12] as int * 256 + frame[13] as int != 0x0800);
    }
}

/// A UDP datagram to any port but 5678 yields nothing, whatever it carries.
pub proof fn lemma_mndp_payload_needs_port(frame: Seq<u8>)
    requires
        spec_ethernet(frame) is Some,
        spec_ipv4((spec_ethernet(frame)->0).1) is Some,
        spec_udp((spec_ipv4((spec_ethernet(frame)->0).1)->0).1) is Some,
        ({
            let udp = (spec_ipv4((spec_ethernet(frame)->0).1)->0).1;
            udp[2] as int * 256 + udp[3] as int != 5678
        }),
    ensures
        spec_mndp_payload(frame) is None,
{
}

} // verus!
