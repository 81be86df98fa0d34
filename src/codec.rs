//! Fixed binary layouts of the probe: Ethernet frame, ARP message, IPv4
//! header and ICMP echo message, all in network byte order.
use vstd::prelude::*;
use crate::checksum::{checksum_spec, header_checksum, lemma_checksum_verifies, ones_sum, with_word};


verus! {

/// EtherType of an IPv4 payload.
pub const ETHERTYPE_IPV4: u16 = 0x0800;

/// EtherType of an ARP payload.
pub const ETHERTYPE_ARP: u16 = 0x0806;

/// Length of an Ethernet header: two addresses and the EtherType.
pub const ETHERNET_HEADER_LEN: usize = 14;

/// Length of an ARP message for Ethernet and IPv4 addresses.
pub const ARP_LEN: usize = 28;

/// Length of an IPv4 header without options.
pub const IPV4_HEADER_LEN: usize = 20;

/// Length of an ICMP echo message without data.
pub const ICMP_ECHO_LEN: usize = 8;

/// ARP hardware type of Ethernet.
pub const ARP_HTYPE_ETHERNET: u16 = 1;

/// ARP operation code of a request.
pub const ARP_OP_REQUEST: u16 = 1;

/// ARP operation code of a reply.
pub const ARP_OP_REPLY: u16 = 2;

/// IPv4 protocol number of ICMP.
pub const IP_PROTOCOL_ICMP: u8 = 1;

/// ICMP type of an echo request.
pub const ICMP_ECHO_REQUEST: u8 = 8;

/// ICMP type of an echo reply.
pub const ICMP_ECHO_REPLY: u8 = 0;

/// The two bytes of `v`, most significant first.
pub open spec fn be16(v: u16) -> Seq<u8> {
    seq![(v / 256) as u8, (v % 256) as u8]
}

/// The 16-bit big-endian number at `b[at]`, `b[at + 1]`.
pub open spec fn read_be16(b: Seq<u8>, at: int) -> u16 {
    (b[at] as int * 256 + b[at + 1] as int) as u16
}

/// An ARP message for Ethernet hardware addresses and IPv4 protocol
/// addresses; its length fields are always 6 and 4.
#[derive(Debug, Clone, Copy, PartialEq, Eq)]
pub struct ArpMessage {
    pub hardware_type: u16,
    pub protocol_type: u16,
    pub operation: u16,
    pub sender_hw_addr: [u8; 6],
    pub sender_proto_addr: [u8; 4],
    pub target_hw_addr: [u8; 6],
    pub target_proto_addr: [u8; 4],
}

/// The 28 bytes of an ARP message.
pub open spec fn arp_bytes(m: ArpMessage) -> Seq<u8> {
    be16(m.hardware_type) + be16(m.protocol_type) + seq![6u8, 4u8] + be16(m.operation)
        + m.sender_hw_addr@ + m.sender_proto_addr@ + m.target_hw_addr@ + m.target_proto_addr@
}

/// The ARP message at the start of `b`, if `b` is long enough and its
/// address lengths are 6 and 4.
pub open spec fn arp_of_bytes(b: Seq<u8>) -> Option<ArpMessage> {
    if b.len() >= 28 && b[4] == 6 && b[5] == 4 {
        Some(
            ArpMessage {
                hardware_type: read_be16(b, 0),
                protocol_type: read_be16(b, 2),
                operation: read_be16(b, 6),
                sender_hw_addr: choose|a: [u8; 6]| a@ == b.subrange(8, 14),
                sender_proto_addr: choose|a: [u8; 4]| a@ == b.subrange(14, 18),
                target_hw_addr: choose|a: [u8; 6]| a@ == b.subrange(18, 24),
                target_proto_addr: choose|a: [u8; 4]| a@ == b.subrange(24, 28),
            },
        )
    } else {
        None
    }
}

/// Appends the bytes of `s` to `v`.
fn push_all(v: &mut Vec<u8>, s: &[u8])
    ensures
        final(v)@ == old(v)@ + s@,
{
    let mut i: usize = 0;
    while i < s.len()
        invariant
            i <= s@.len(),
            v@ == old(v)@ + s@.take(i as int),
        decreases s@.len() - i,
    {
        v.push(s[i]);
        i = i + 1;
        assert(v@ =~= old(v)@ + s@.take(i as int));
    }
    assert(s@.take(i as int) =~= s@);
}

/// Appends the two bytes of `x`, most significant first.
fn push_be16(v: &mut Vec<u8>, x: u16)
    ensures
        final(v)@ == old(v)@ + be16(x),
{
    v.push((x / 256) as u8);
    v.push((x % 256) as u8);
    assert(v@ =~= old(v)@ + be16(x));
}

/// Reads the 16-bit big-endian number at `b[at]`.
fn get_be16(b: &[u8], at: usize) -> (r: u16)
    requires
        at + 2 <= b@.len(),
    ensures
        r == read_be16(b@, at as int),
{
    (b[at] as u16) * 256 + (b[at + 1] as u16)
}

/// Copies six bytes starting at `b[at]`.
fn get_hw_addr(b: &[u8], at: usize) -> (r: [u8; 6])
    requires
        at + 6 <= b@.len(),
    ensures
        r@ == b@.subrange(at as int, at + 6),
{
    let r = [b[at], b[at + 1], b[at + 2], b[at + 3], b[at + 4], b[at + 5]];
    assert(r@ =~= b@.subrange(at as int, at + 6));
    r
}

/// Copies four bytes starting at `b[at]`.
fn get_proto_addr(b: &[u8], at: usize) -> (r: [u8; 4])
    requires
        at + 4 <= b@.len(),
    ensures
        r@ == b@.subrange(at as int, at + 4),
{
    let r = [b[at], b[at + 1], b[at + 2], b[at + 3]];
    assert(r@ =~= b@.subrange(at as int, at + 4));
    r
}

pub(crate) proof fn lemma_hw_addr_unique(a: [u8; 6], s: Seq<u8>)
    requires
        a@ == s,
    ensures
        (choose|x: [u8; 6]| x@ == s) == a,
{
    let c = choose|x: [u8; 6]| x@ == s;
    assert(c@ == s);
    assert(c =~= a);
}

proof fn lemma_proto_addr_unique(a: [u8; 4], s: Seq<u8>)
    requires
        a@ == s,
    ensures
        (choose|x: [u8; 4]| x@ == s) == a,
{
    let c = choose|x: [u8; 4]| x@ == s;
    assert(c@ == s);
    assert(c =~= a);
}

/// Lays out an ARP message in its 28 bytes.
pub fn build_arp(m: &ArpMessage) -> (r: Vec<u8>)
    ensures
        r@ == arp_bytes(*m),
        r@.len() == ARP_LEN,
{
    let mut v: Vec<u8> = Vec::new();
    push_be16(&mut v, m.hardware_type);
    push_be16(&mut v, m.protocol_type);
    v.push(6);
    v.push(4);
    push_be16(&mut v, m.operation);
    push_all(&mut v, &m.sender_hw_addr);
    push_all(&mut v, &m.sender_proto_addr);
    push_all(&mut v, &m.target_hw_addr);
    push_all(&mut v, &m.target_proto_addr);
    assert(v@ =~= arp_bytes(*m));
    v
}

/// Reads the ARP message at the start of `b`: `None` where `b` is shorter
/// than 28 bytes or its address lengths are not 6 and 4.
pub fn parse_arp(b: &[u8]) -> (r: Option<ArpMessage>)
    ensures
        r == arp_of_bytes(b@),
{
    if b.len() < ARP_LEN || b[4] != 6 || b[5] != 4 {
        return None;
    }
    let m = ArpMessage {
        hardware_type: get_be16(b, 0),
        protocol_type: get_be16(b, 2),
        operation: get_be16(b, 6),
        sender_hw_addr: get_hw_addr(b, 8),
        sender_proto_addr: get_proto_addr(b, 14),
        target_hw_addr: get_hw_addr(b, 18),
        target_proto_addr: get_proto_addr(b, 24),
    };
    proof {
        lemma_hw_addr_unique(m.sender_hw_addr, b@.subrange(8, 14));
        lemma_proto_addr_unique(m.sender_proto_addr, b@.subrange(14, 18));
        lemma_hw_addr_unique(m.target_hw_addr, b@.subrange(18, 24));
        lemma_proto_addr_unique(m.target_proto_addr, b@.subrange(24, 28));
    }
    let ghost e = arp_of_bytes(b@)->Some_0;
    assert(e.sender_hw_addr == m.sender_hw_addr);
    assert(e.sender_proto_addr == m.sender_proto_addr);
    assert(e.target_hw_addr == m.target_hw_addr);
    assert(e.target_proto_addr == m.target_proto_addr);
    Some(m)
}

/// Reading back the bytes of an ARP message gives every field unchanged.
pub proof fn lemma_arp_round_trip(m: ArpMessage)
    ensures
        arp_of_bytes(arp_bytes(m)) == Some(m),
{
    let b = arp_bytes(m);
    assert(b.subrange(8, 14) =~= m.sender_hw_addr@);
    assert(b.subrange(14, 18) =~= m.sender_proto_addr@);
    assert(b.subrange(18, 24) =~= m.target_hw_addr@);
    assert(b.subrange(24, 28) =~= m.target_proto_addr@);
    lemma_hw_addr_unique(m.sender_hw_addr, b.subrange(8, 14));
    lemma_proto_addr_unique(m.sender_proto_addr, b.subrange(14, 18));
    lemma_hw_addr_unique(m.target_hw_addr, b.subrange(18, 24));
    lemma_proto_addr_unique(m.target_proto_addr, b.subrange(24, 28));
    assert(read_be16(b, 0) == m.hardware_type);
    assert(read_be16(b, 2) == m.protocol_type);
    assert(read_be16(b, 6) == m.operation);
    let e = arp_of_bytes(b)->Some_0;
    assert(e.sender_hw_addr == m.sender_hw_addr);
    assert(e.sender_proto_addr == m.sender_proto_addr);
    assert(e.target_hw_addr == m.target_hw_addr);
    assert(e.target_proto_addr == m.target_proto_addr);
}

/// An IPv4 header without options whose checksum field is zero:
/// version 4, header length 5 words, no type of service, identification,
/// flags or fragment offset.
pub open spec fn ipv4_header_unsummed(
    source: Seq<u8>,
    destination: Seq<u8>,
    protocol: u8,
    total_length: u16,
    ttl: u8,
) -> Seq<u8> {
    seq![0x45u8, 0u8] + be16(total_length) + seq![0u8, 0u8, 0u8, 0u8, ttl, protocol, 0u8, 0u8]
        + source + destination
}

/// The same header with its checksum (the word at offset 10) filled in.
pub open spec fn ipv4_header_bytes(
    source: Seq<u8>,
    destination: Seq<u8>,
    protocol: u8,
    total_length: u16,
    ttl: u8,
) -> Seq<u8> {
    let h = ipv4_header_unsummed(source, destination, protocol, total_length, ttl);
    with_word(h, 10, checksum_spec(h))
}

/// An ICMP echo request without data whose checksum field is zero.
pub open spec fn echo_request_unsummed(identifier: u16, sequence: u16) -> Seq<u8> {
    seq![ICMP_ECHO_REQUEST, 0u8, 0u8, 0u8] + be16(identifier) + be16(sequence)
}

/// The same message with its checksum (the word at offset 2) filled in.
pub open spec fn echo_request_bytes(identifier: u16, sequence: u16) -> Seq<u8> {
    let m = echo_request_unsummed(identifier, sequence);
    with_word(m, 2, checksum_spec(m))
}

/// An Ethernet frame: destination, source, EtherType, payload.
pub open spec fn ethernet_bytes(
    destination: Seq<u8>,
    source: Seq<u8>,
    ethertype: u16,
    payload: Seq<u8>,
) -> Seq<u8> {
    destination + source + be16(ethertype) + payload
}

/// Writes the 16-bit word `c` at `v[at]`, `v[at + 1]`.
fn set_word(v: &mut Vec<u8>, at: usize, c: u16)
    requires
        at + 1 < old(v)@.len(),
    ensures
        final(v)@ == with_word(old(v)@, at as int, c),
{
    let len = v.len();
    assert(at + 1 < len);
    let next = at + 1;
    v.set(at, (c / 256) as u8);
    v.set(next, (c % 256) as u8);
}

/// Lays out a 20-byte IPv4 header and fills in its checksum.
pub fn build_ipv4_header(
    source: [u8; 4],
    destination: [u8; 4],
    protocol: u8,
    total_length: u16,
    ttl: u8,
) -> (r: Vec<u8>)
    ensures
        r@ == ipv4_header_bytes(source@, destination@, protocol, total_length, ttl),
        r@.len() == IPV4_HEADER_LEN,
        ones_sum(r@) == 0xFFFF,
{
    let mut v: Vec<u8> = Vec::new();
    v.push(0x45);
    v.push(0);
    push_be16(&mut v, total_length);
    v.push(0);
    v.push(0);
    v.push(0);
    v.push(0);
    v.push(ttl);
    v.push(protocol);
    v.push(0);
    v.push(0);
    push_all(&mut v, &source);
    push_all(&mut v, &destination);
    let ghost h = ipv4_header_unsummed(source@, destination@, protocol, total_length, ttl);
    assert(v@ =~= h);
    let c = header_checksum(v.as_slice(), 10);
    assert(with_word(h, 10, 0) =~= h);
    set_word(&mut v, 10, c);
    proof {
        lemma_checksum_verifies(h, 10);
    }
    v
}

/// Lays out an 8-byte ICMP echo request and fills in its checksum.
pub fn build_echo_request(identifier: u16, sequence: u16) -> (r: Vec<u8>)
    ensures
        r@ == echo_request_bytes(identifier, sequence),
        r@.len() == ICMP_ECHO_LEN,
        ones_sum(r@) == 0xFFFF,
{
    let mut v: Vec<u8> = Vec::new();
    v.push(ICMP_ECHO_REQUEST);
    v.push(0);
    v.push(0);
    v.push(0);
    push_be16(&mut v, identifier);
    push_be16(&mut v, sequence);
    let ghost m = echo_request_unsummed(identifier, sequence);
    assert(v@ =~= m);
    let c = header_checksum(v.as_slice(), 2);
    assert(with_word(m, 2, 0) =~= m);
    set_word(&mut v, 2, c);
    proof {
        lemma_checksum_verifies(m, 2);
    }
    v
}

/// Lays out an Ethernet frame around `payload`.
pub fn build_ethernet_frame(
    destination: [u8; 6],
    source: [u8; 6],
    ethertype: u16,
    payload: &[u8],
) -> (r: Vec<u8>)
    ensures
        r@ == ethernet_bytes(destination@, source@, ethertype, payload@),
        r@.len() == ETHERNET_HEADER_LEN + payload@.len(),
{
    let mut v: Vec<u8> = Vec::new();
    push_all(&mut v, &destination);
    push_all(&mut v, &source);
    push_be16(&mut v, ethertype);
    push_all(&mut v, payload);
    assert(v@ =~= ethernet_bytes(destination@, source@, ethertype, payload@));
    v
}

/// The ARP request of a probe: it asks, from the local interface, for the
/// host with hardware address `target`, with the broadcast IPv4 address as
/// the protocol address sought.
pub open spec fn arp_probe_message(target: [u8; 6], local_hw: [u8; 6], local_ip: [u8; 4]) -> ArpMessage {
    ArpMessage {
        hardware_type: ARP_HTYPE_ETHERNET,
        protocol_type: ETHERTYPE_IPV4,
        operation: ARP_OP_REQUEST,
        sender_hw_addr: local_hw,
        sender_proto_addr: local_ip,
        target_hw_addr: target,
        target_proto_addr: [255u8, 255u8, 255u8, 255u8],
    }
}

/// The 42-byte ARP probe frame, sent to the Ethernet broadcast address.
pub open spec fn arp_probe_bytes(target: [u8; 6], local_hw: [u8; 6], local_ip: [u8; 4]) -> Seq<u8> {
    ethernet_bytes(
        seq![255u8, 255u8, 255u8, 255u8, 255u8, 255u8],
        local_hw@,
        ETHERTYPE_ARP,
        arp_bytes(arp_probe_message(target, local_hw, local_ip)),
    )
}

/// The 42-byte ICMP probe frame: an echo request (identifier and sequence
/// zero) in an IPv4 datagram from `local_ip` to the broadcast address, with
/// a time to live of 64, in a frame addressed to `target`.
pub open spec fn icmp_probe_bytes(target: [u8; 6], local_hw: [u8; 6], local_ip: [u8; 4]) -> Seq<u8> {
    ethernet_bytes(
        target@,
        local_hw@,
        ETHERTYPE_IPV4,
        ipv4_header_bytes(local_ip@, seq![255u8, 255u8, 255u8, 255u8], IP_PROTOCOL_ICMP, 28, 64)
            + echo_request_bytes(0, 0),
    )
}

/// Builds the ARP probe frame for the host with hardware address `target`.
pub fn build_arp_probe(target: [u8; 6], local_hw: [u8; 6], local_ip: [u8; 4]) -> (r: Vec<u8>)
    ensures
        r@ == arp_probe_bytes(target, local_hw, local_ip),
        r@.len() == ETHERNET_HEADER_LEN + ARP_LEN,
{
    let m = ArpMessage {
        hardware_type: ARP_HTYPE_ETHERNET,
        protocol_type: ETHERTYPE_IPV4,
        operation: ARP_OP_REQUEST,
        sender_hw_addr: local_hw,
        sender_proto_addr: local_ip,
        target_hw_addr: target,
        target_proto_addr: [255u8; 4],
    };
    assert(m.target_proto_addr =~= [255u8, 255u8, 255u8, 255u8]);
    let arp = build_arp(&m);
    let broadcast: [u8; 6] = [255u8; 6];
    assert(broadcast@ =~= seq![255u8, 255u8, 255u8, 255u8, 255u8, 255u8]);
    build_ethernet_frame(broadcast, local_hw, ETHERTYPE_ARP, arp.as_slice())
}

/// Builds the ICMP probe frame for the host with hardware address `target`.
pub fn build_icmp_probe(target: [u8; 6], local_hw: [u8; 6], local_ip: [u8; 4]) -> (r: Vec<u8>)
    ensures
        r@ == icmp_probe_bytes(target, local_hw, local_ip),
        r@.len() == ETHERNET_HEADER_LEN + IPV4_HEADER_LEN + ICMP_ECHO_LEN,
{
    let echo = build_echo_request(0, 0);
    let total: u16 = (IPV4_HEADER_LEN + ICMP_ECHO_LEN) as u16;
    let broadcast: [u8; 4] = [255u8; 4];
    assert(broadcast@ =~= seq![255u8, 255u8, 255u8, 255u8]);
    let mut datagram = build_ipv4_header(local_ip, broadcast, IP_PROTOCOL_ICMP, total, 64);
    push_all(&mut datagram, echo.as_slice());
    build_ethernet_frame(target, local_hw, ETHERTYPE_IPV4, datagram.as_slice())
}

} // verus!
