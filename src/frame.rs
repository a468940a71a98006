//! Selecting the SYN segments addressed to one port out of captured
//! Ethernet frames, and fingerprinting them.
use vstd::prelude::*;
use etherparse::TcpHeader;
use pnet::packet::ethernet::EthernetPacket;
use pnet::packet::ipv4::Ipv4Packet;
use pnet::packet::tcp::TcpPacket;
use pnet::packet::Packet;
use crate::fingerprint::{fingerprint_text, ja4t_fingerprint};
use crate::options::be_u16;

verus! {

/// The ethertype of IPv4.
pub const ETHERTYPE_IPV4: u16 = 0x0800;

/// The IPv4 protocol number of TCP.
pub const PROTOCOL_TCP: u8 = 6;

/// The SYN bit of the TCP flag byte.
pub const FLAG_SYN: u8 = 0x02;

/// The ACK bit of the TCP flag byte.
pub const FLAG_ACK: u8 = 0x10;

// ----- Ethernet -----

/// The ethertype of an Ethernet frame.
pub open spec fn ethertype(f: Seq<u8>) -> u16 {
    be_u16(f, 12)
}

/// What follows the 14-byte Ethernet header.
pub open spec fn ethernet_payload(f: Seq<u8>) -> Seq<u8> {
    f.subrange(14, f.len() as int)
}

/// The fields of an Ethernet frame that the filter reads.
pub struct EthernetFields {
    pub ethertype: u16,
    pub payload: Vec<u8>,
}

/// Relies on pnet's `EthernetPacket::new` (`None` under 14 bytes),
/// `get_ethertype` (bytes 12 and 13, big-endian) and `payload` (from byte 14 on).
#[verifier::external_body]
fn decode_ethernet(frame: &[u8]) -> (r: Option<EthernetFields>)
    ensures
        r is Some <==> frame@.len() >= 14,
        r matches Some(e) ==> e.ethertype == ethertype(frame@) && e.payload@ == ethernet_payload(
            frame@,
        ),
{
    match EthernetPacket::new(frame) {
        Some(p) => Some(EthernetFields { ethertype: p.get_ethertype().0, payload: p.payload().to_vec() }),
        None => None,
    }
}

// ----- IPv4 -----

/// The header length in bytes that the IHL field of an IPv4 packet gives.
pub open spec fn ipv4_header_len(p: Seq<u8>) -> int {
    (p[0] as int % 16) * 4
}

/// The total length field of an IPv4 packet.
pub open spec fn ipv4_total_len(p: Seq<u8>) -> int {
    be_u16(p, 2) as int
}

/// Where an IPv4 payload starts: after the header, and never before byte 20.
pub open spec fn ipv4_payload_start(p: Seq<u8>) -> int {
    if ipv4_header_len(p) >= 20 {
        ipv4_header_len(p)
    } else {
        20
    }
}

/// Where an IPv4 payload ends: as the total length says, within the bytes at hand.
pub open spec fn ipv4_payload_end(p: Seq<u8>) -> int {
    let len = if ipv4_total_len(p) >= ipv4_header_len(p) {
        ipv4_total_len(p) - ipv4_header_len(p)
    } else {
        0
    };
    if ipv4_payload_start(p) + len <= p.len() {
        ipv4_payload_start(p) + len
    } else {
        p.len() as int
    }
}

/// The payload of an IPv4 packet.
pub open spec fn ipv4_payload(p: Seq<u8>) -> Seq<u8> {
    if p.len() <= ipv4_payload_start(p) {
        Seq::empty()
    } else {
        p.subrange(ipv4_payload_start(p), ipv4_payload_end(p))
    }
}

/// The fields of an IPv4 packet that the filter and the fingerprint read.
pub struct Ipv4Fields {
    pub ttl: u8,
    /// The three flag bits; the don't-fragment bit is `0b010`.
    pub flags: u8,
    pub protocol: u8,
    pub source: [u8; 4],
    pub destination: [u8; 4],
    pub payload: Vec<u8>,
}

/// Relies on pnet's `Ipv4Packet::new` (`None` under 20 bytes), its getters
/// `get_ttl` (byte 8), `get_flags` (top three bits of byte 6),
/// `get_next_level_protocol` (byte 9), `get_source` and `get_destination`
/// (bytes 12..16 and 16..20) and `payload` (bounded by the IHL and total
/// length fields).
#[verifier::external_body]
fn decode_ipv4(packet: &[u8]) -> (r: Option<Ipv4Fields>)
    ensures
        r is Some <==> packet@.len() >= 20,
        r matches Some(h) ==> {
            &&& h.ttl == packet@[8]
            &&& h.flags as int == packet@[6] as int / 32
            &&& h.protocol == packet@[9]
            &&& h.source@ == packet@.subrange(12, 16)
            &&& h.destination@ == packet@.subrange(16, 20)
            &&& h.payload@ == ipv4_payload(packet@)
        },
{
    match Ipv4Packet::new(packet) {
        Some(p) => Some(Ipv4Fields {
            ttl: p.get_ttl(),
            flags: p.get_flags(),
            protocol: p.get_next_level_protocol().0,
            source: p.get_source().octets(),
            destination: p.get_destination().octets(),
            payload: p.payload().to_vec(),
        }),
        None => None,
    }
}

// ----- TCP -----

/// The fields of a TCP segment that the filter reads.
pub struct TcpFields {
    pub source_port: u16,
    pub destination_port: u16,
    pub flags: u8,
}

/// Relies on pnet's `TcpPacket::new` (`None` under 20 bytes) and its getters
/// `get_source` and `get_destination` (bytes 0..2 and 2..4, big-endian) and
/// `get_flags` (byte 13).
#[verifier::external_body]
fn decode_tcp(segment: &[u8]) -> (r: Option<TcpFields>)
    ensures
        r is Some <==> segment@.len() >= 20,
        r matches Some(t) ==> {
            &&& t.source_port == be_u16(segment@, 0)
            &&& t.destination_port == be_u16(segment@, 2)
            &&& t.flags == segment@[13]
        },
{
    match TcpPacket::new(segment) {
        Some(p) => Some(TcpFields {
            source_port: p.get_source(),
            destination_port: p.get_destination(),
            flags: p.get_flags(),
        }),
        None => None,
    }
}

/// The TCP header length in bytes that the data offset field gives.
pub open spec fn tcp_header_len(t: Seq<u8>) -> int {
    (t[12] as int / 16) * 4
}

/// Whether a TCP header can be read from `t`: at least 20 bytes, a data
/// offset of at least five words, and the whole header present.
pub open spec fn tcp_header_readable(t: Seq<u8>) -> bool {
    t.len() >= 20 && tcp_header_len(t) >= 20 && t.len() >= tcp_header_len(t)
}

/// The raw options of a readable TCP header.
pub open spec fn tcp_options(t: Seq<u8>) -> Seq<u8> {
    t.subrange(20, tcp_header_len(t))
}

/// The window size and raw options of a TCP header.
pub struct TcpHeaderFields {
    pub window_size: u16,
    pub options: Vec<u8>,
}

/// Relies on etherparse's `TcpHeader::from_slice`: `Ok` exactly when the
/// header is readable, with `window_size` from bytes 14 and 15 and the
/// options from byte 20 to the end of the header.
#[verifier::external_body]
fn read_tcp_header(segment: &[u8]) -> (r: Option<TcpHeaderFields>)
    ensures
        r is Some <==> tcp_header_readable(segment@),
        r matches Some(h) ==> h.window_size == be_u16(segment@, 14) && h.options@ == tcp_options(
            segment@,
        ),
{
    match TcpHeader::from_slice(segment) {
        Ok((h, _)) => Some(TcpHeaderFields { window_size: h.window_size, options: h.options.as_slice().to_vec() }),
        Err(_) => None,
    }
}

// ----- The filter -----

/// A flag byte with SYN set and ACK clear.
pub open spec fn syn_without_ack(flags: u8) -> bool {
    flags & FLAG_SYN != 0 && flags & FLAG_ACK == 0
}

/// Whether a segment with this flag byte and destination port is selected.
pub open spec fn selects(flags: u8, destination_port: u16, target_port: u16) -> bool {
    syn_without_ack(flags) && destination_port == target_port
}

/// The filter selects a flag byte of SYN alone addressed to the target
/// port; it selects no flag byte with ACK set (SYN+ACK among them), and
/// nothing addressed to another port.
pub proof fn lemma_filter_selection(target_port: u16, other_port: u16)
    requires
        other_port != target_port,
    ensures
        selects(0x02, target_port, target_port),
        !selects(0x12, target_port, target_port),
        !selects(0x02, other_port, target_port),
        forall|f: u8, p: u16| f & FLAG_ACK != 0 ==> !#[trigger] selects(f, p, target_port),
{
    assert(0x02u8 & 0x02u8 != 0 && 0x02u8 & 0x10u8 == 0) by (bit_vector);
    assert(0x12u8 & 0x10u8 != 0) by (bit_vector);
}

/// Whether a flag byte has SYN set and ACK clear.
pub fn is_syn_without_ack(flags: u8) -> (r: bool)
    ensures
        r == syn_without_ack(flags),
{
    flags & FLAG_SYN != 0 && flags & FLAG_ACK == 0
}

/// Whether a segment with this flag byte and destination port is selected
/// for the target port.
pub fn is_selected(flags: u8, destination_port: u16, target_port: u16) -> (r: bool)
    ensures
        r == selects(flags, destination_port, target_port),
{
    is_syn_without_ack(flags) && destination_port == target_port
}

/// The IPv4 packet carried by a frame.
pub open spec fn frame_ipv4(f: Seq<u8>) -> Seq<u8> {
    ethernet_payload(f)
}

/// The TCP segment carried by a frame.
pub open spec fn frame_tcp(f: Seq<u8>) -> Seq<u8> {
    ipv4_payload(frame_ipv4(f))
}

/// Whether a captured frame is an Ethernet frame carrying IPv4 carrying a
/// TCP SYN without ACK addressed to `target_port`.
pub open spec fn frame_selected(f: Seq<u8>, target_port: u16) -> bool {
    &&& f.len() >= 14
    &&& ethertype(f) == ETHERTYPE_IPV4
    &&& frame_ipv4(f).len() >= 20
    &&& frame_ipv4(f)[9] == PROTOCOL_TCP
    &&& frame_tcp(f).len() >= 20
    &&& selects(frame_tcp(f)[13], be_u16(frame_tcp(f), 2), target_port)
}

/// A selected SYN: its endpoints, its flag byte, what the fingerprint reads
/// of its IPv4 header, and the raw TCP segment.
pub struct SynSegment {
    pub source_ip: [u8; 4],
    pub destination_ip: [u8; 4],
    pub source_port: u16,
    pub destination_port: u16,
    pub flags: u8,
    pub ttl: u8,
    pub ip_flags: u8,
    pub tcp_bytes: Vec<u8>,
}

impl SynSegment {
    /// The segment is the one that frame `f` carries.
    pub open spec fn carried_by(&self, f: Seq<u8>) -> bool {
        let ip = frame_ipv4(f);
        let tcp = frame_tcp(f);
        &&& self.source_ip@ == ip.subrange(12, 16)
        &&& self.destination_ip@ == ip.subrange(16, 20)
        &&& self.ttl == ip[8]
        &&& self.ip_flags as int == ip[6] as int / 32
        &&& self.source_port == be_u16(tcp, 0)
        &&& self.destination_port == be_u16(tcp, 2)
        &&& self.flags == tcp[13]
        &&& self.tcp_bytes@ == tcp
    }
}

/// Decodes a captured frame and returns the SYN it carries when the frame is
/// selected for `target_port`; every other frame gives `None`.
pub fn classify_frame(frame: &[u8], target_port: u16) -> (r: Option<SynSegment>)
    ensures
        r is Some <==> frame_selected(frame@, target_port),
        r matches Some(s) ==> s.carried_by(frame@),
{
    let eth = match decode_ethernet(frame) {
        Some(e) => e,
        None => return None,
    };
    if eth.ethertype != ETHERTYPE_IPV4 {
        return None;
    }
    let ip = match decode_ipv4(eth.payload.as_slice()) {
        Some(h) => h,
        None => return None,
    };
    if ip.protocol != PROTOCOL_TCP {
        return None;
    }
    let tcp = match decode_tcp(ip.payload.as_slice()) {
        Some(t) => t,
        None => return None,
    };
    if !is_selected(tcp.flags, tcp.destination_port, target_port) {
        return None;
    }
    Some(SynSegment {
        source_ip: ip.source,
        destination_ip: ip.destination,
        source_port: tcp.source_port,
        destination_port: tcp.destination_port,
        flags: tcp.flags,
        ttl: ip.ttl,
        ip_flags: ip.flags,
        tcp_bytes: ip.payload,
    })
}

/// The fingerprint of a selected SYN, or `None` when its TCP header cannot
/// be read in full.
pub fn segment_fingerprint(seg: &SynSegment) -> (r: Option<String>)
    ensures
        r is Some <==> tcp_header_readable(seg.tcp_bytes@),
        r matches Some(s) ==> s@ == fingerprint_text(
            seg.ttl,
            seg.ip_flags,
            be_u16(seg.tcp_bytes@, 14),
            tcp_options(seg.tcp_bytes@),
            seg.flags,
        ),
{
    match read_tcp_header(seg.tcp_bytes.as_slice()) {
        Some(h) => Some(ja4t_fingerprint(seg.ttl, seg.ip_flags, h.window_size, h.options.as_slice(), seg.flags)),
        None => None,
    }
}

} // verus!
