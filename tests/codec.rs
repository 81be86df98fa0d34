use magic_packet::checksum::header_checksum;
use magic_packet::codec::{
    build_arp, build_arp_probe, build_echo_request, build_ethernet_frame, build_icmp_probe,
    build_ipv4_header, parse_arp, ArpMessage,
};

fn ones_sum(b: &[u8]) -> u32 {
    let mut s: u32 = 0;
    for w in b.chunks(2) {
        let hi = w[0] as u32;
        let lo = if w.len() > 1 { w[1] as u32 } else { 0 };
        s += hi * 256 + lo;
    }
    while s > 0xFFFF {
        s = (s & 0xFFFF) + (s >> 16);
    }
    s
}

#[test]
fn checksum_of_known_header() {
    // A textbook IPv4 header whose checksum is 0xB861.
    let h = [
        0x45, 0x00, 0x00, 0x73, 0x00, 0x00, 0x40, 0x00, 0x40, 0x11, 0x00, 0x00, 0xC0, 0xA8,
        0x00, 0x01, 0xC0, 0xA8, 0x00, 0xC7,
    ];
    assert_eq!(header_checksum(&h, 10), 0xB861);
    let mut filled = h;
    filled[10] = 0xB8;
    filled[11] = 0x61;
    assert_eq!(header_checksum(&filled, 10), 0xB861);
    assert_eq!(ones_sum(&filled), 0xFFFF);
}

#[test]
fn checksum_of_odd_length() {
    assert_eq!(header_checksum(&[0x01, 0x02, 0xAA, 0xBB, 0x03], 2), 0xFBFD);
    assert_eq!(header_checksum(&[0x00, 0x00], 0), 0xFFFF);
}

#[test]
fn ipv4_header_checksum_verifies() {
    let h = build_ipv4_header([192, 168, 1, 10], [255, 255, 255, 255], 1, 28, 64);
    assert_eq!(h.len(), 20);
    assert_eq!(&h[..10], &[0x45, 0, 0, 28, 0, 0, 0, 0, 64, 1]);
    assert_eq!(&h[12..], &[192, 168, 1, 10, 255, 255, 255, 255]);
    assert_eq!(ones_sum(&h), 0xFFFF);
    let mut zeroed = h.clone();
    zeroed[10] = 0;
    zeroed[11] = 0;
    let c = header_checksum(&zeroed, 10);
    assert_eq!([h[10], h[11]], c.to_be_bytes());
    assert_ne!(c, 0);
}

#[test]
fn echo_request_bytes_exact() {
    assert_eq!(build_echo_request(0, 0), vec![8, 0, 0xF7, 0xFF, 0, 0, 0, 0]);
    let e = build_echo_request(0x1234, 1);
    assert_eq!(&e[4..], &[0x12, 0x34, 0, 1]);
    assert_eq!(ones_sum(&e), 0xFFFF);
}

fn sample_arp() -> ArpMessage {
    ArpMessage {
        hardware_type: 1,
        protocol_type: 0x0800,
        operation: 2,
        sender_hw_addr: [1, 2, 3, 4, 5, 6],
        sender_proto_addr: [10, 0, 0, 1],
        target_hw_addr: [0xA, 0xB, 0xC, 0xD, 0xE, 0xF],
        target_proto_addr: [10, 0, 0, 2],
    }
}

#[test]
fn arp_layout_and_round_trip() {
    let m = sample_arp();
    let b = build_arp(&m);
    assert_eq!(
        b,
        vec![
            0, 1, 8, 0, 6, 4, 0, 2, 1, 2, 3, 4, 5, 6, 10, 0, 0, 1, 0xA, 0xB, 0xC, 0xD, 0xE, 0xF,
            10, 0, 0, 2
        ]
    );
    assert_eq!(parse_arp(&b), Some(m));
}

#[test]
fn arp_parse_rejects_short_or_bad_lengths() {
    let b = build_arp(&sample_arp());
    assert_eq!(parse_arp(&b[..27]), None);
    let mut bad = b.clone();
    bad[4] = 8;
    assert_eq!(parse_arp(&bad), None);
    let mut bad = b;
    bad[5] = 16;
    assert_eq!(parse_arp(&bad), None);
}

#[test]
fn ethernet_frame_layout() {
    let f = build_ethernet_frame([1, 2, 3, 4, 5, 6], [7, 8, 9, 10, 11, 12], 0x0806, &[0xAA, 0xBB]);
    assert_eq!(f, vec![1, 2, 3, 4, 5, 6, 7, 8, 9, 10, 11, 12, 0x08, 0x06, 0xAA, 0xBB]);
}

#[test]
fn arp_probe_frame() {
    let target = [0x80, 0xEE, 0x73, 0x69, 0x78, 0x78];
    let local = [2, 0, 0, 0, 0, 1];
    let f = build_arp_probe(target, local, [192, 168, 0, 5]);
    assert_eq!(f.len(), 42);
    assert_eq!(&f[..6], &[0xFF; 6]);
    assert_eq!(&f[6..12], &local);
    assert_eq!(&f[12..14], &[0x08, 0x06]);
    let m = parse_arp(&f[14..]).unwrap();
    assert_eq!(m.operation, 1);
    assert_eq!(m.hardware_type, 1);
    assert_eq!(m.protocol_type, 0x0800);
    assert_eq!(m.sender_hw_addr, local);
    assert_eq!(m.sender_proto_addr, [192, 168, 0, 5]);
    assert_eq!(m.target_hw_addr, target);
    assert_eq!(m.target_proto_addr, [255; 4]);
}

#[test]
fn icmp_probe_frame() {
    let target = [0x80, 0xEE, 0x73, 0x69, 0x78, 0x78];
    let local = [2, 0, 0, 0, 0, 1];
    let f = build_icmp_probe(target, local, [192, 168, 0, 5]);
    assert_eq!(f.len(), 42);
    assert_eq!(&f[..6], &target);
    assert_eq!(&f[6..12], &local);
    assert_eq!(&f[12..14], &[0x08, 0x00]);
    let ip = &f[14..34];
    assert_eq!(ip[0], 0x45);
    assert_eq!(&ip[2..4], &[0, 28]);
    assert_eq!(ip[8], 64);
    assert_eq!(ip[9], 1);
    assert_eq!(&ip[12..16], &[192, 168, 0, 5]);
    assert_eq!(&ip[16..20], &[255; 4]);
    assert_eq!(ones_sum(ip), 0xFFFF);
    assert_eq!(&f[34..], &[8, 0, 0xF7, 0xFF, 0, 0, 0, 0]);
}
