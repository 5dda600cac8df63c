//! IPv4 + UDP framing.

use meow_ios_ffi::packet::{build_udp_reply, ipv4_header_checksum, parse_udp_packet};

/// src 10.0.0.7:54321 -> dst 172.19.0.2:53, payload "QQQQ".
fn synthetic_dns_query_packet() -> Vec<u8> {
    let mut pkt: Vec<u8> = Vec::new();
    pkt.extend_from_slice(&[
        0x45, 0x00, 0x00, 0x20, 0x12, 0x34, 0x40, 0x00, 0x40, 0x11, 0x00, 0x00, 10, 0, 0, 7, 172,
        19, 0, 2,
    ]);
    pkt.extend_from_slice(&[0xD4, 0x31, 0x00, 0x35, 0x00, 0x0C, 0x00, 0x00]);
    pkt.extend_from_slice(b"QQQQ");
    pkt
}

#[test]
fn build_udp_reply_swaps_addresses_and_ports() {
    let req = synthetic_dns_query_packet();
    let reply = build_udp_reply(&req, b"OK").expect("reply built");
    assert_eq!(u16::from_be_bytes([reply[2], reply[3]]), 30);
    assert_eq!(reply[9], 17, "protocol stays UDP");
    assert_eq!(&reply[12..16], &[172, 19, 0, 2]);
    assert_eq!(&reply[16..20], &[10, 0, 0, 7]);
    assert_eq!(&reply[20..22], &[0x00, 0x35]);
    assert_eq!(&reply[22..24], &[0xD4, 0x31]);
    assert_eq!(u16::from_be_bytes([reply[24], reply[25]]), 10);
    assert_eq!(&reply[28..30], b"OK");
}

#[test]
fn build_udp_reply_ipv4_checksum_is_valid() {
    let req = synthetic_dns_query_packet();
    let reply = build_udp_reply(&req, b"OK").expect("reply built");
    let mut header = reply[0..20].to_vec();
    let stored = u16::from_be_bytes([header[10], header[11]]);
    header[10] = 0;
    header[11] = 0;
    assert_eq!(ipv4_header_checksum(&header), stored);
}

#[test]
fn build_udp_reply_rejects_non_udp_input() {
    let mut pkt = synthetic_dns_query_packet();
    pkt[9] = 6; // protocol = TCP
    assert!(build_udp_reply(&pkt, b"x").is_none());
}

#[test]
fn parse_udp_packet_decodes_ipv4_wire_form_big_endian() {
    let pkt = synthetic_dns_query_packet();
    let parsed = parse_udp_packet(&pkt).expect("packet parses");
    assert_eq!(parsed.src_ip, u32::from_be_bytes([10, 0, 0, 7]));
    assert_eq!(parsed.dst_ip, u32::from_be_bytes([172, 19, 0, 2]));
    assert_eq!(parsed.src_port, 54321);
    assert_eq!(parsed.dst_port, 53);
    assert_eq!(parsed.payload, b"QQQQ");
}

#[test]
fn whole_reply_is_pinned_down() {
    let req = synthetic_dns_query_packet();
    let reply = build_udp_reply(&req, b"OK").expect("reply built");
    assert_eq!(
        reply,
        vec![
            0x45, 0x00, 0x00, 0x1E, 0x00, 0x00, 0x40, 0x00, 0x40, 0x11, 0x84, 0xB3, 172, 19, 0, 2,
            10, 0, 0, 7, 0x00, 0x35, 0xD4, 0x31, 0x00, 0x0A, 0x00, 0x00, b'O', b'K',
        ]
    );
}

#[test]
fn reply_parses_back_with_the_endpoints_exchanged() {
    let req = synthetic_dns_query_packet();
    let reply = build_udp_reply(&req, b"answer").expect("reply built");
    let parsed = parse_udp_packet(&reply).expect("reply parses");
    assert_eq!(parsed.src_ip, u32::from_be_bytes([172, 19, 0, 2]));
    assert_eq!(parsed.src_port, 53);
    assert_eq!(parsed.dst_ip, u32::from_be_bytes([10, 0, 0, 7]));
    assert_eq!(parsed.dst_port, 54321);
    assert_eq!(parsed.payload, b"answer");
}

#[test]
fn checksum_over_a_complete_header_is_zero() {
    let req = synthetic_dns_query_packet();
    let reply = build_udp_reply(&req, b"OK").expect("reply built");
    assert_eq!(ipv4_header_checksum(&reply[0..20]), 0);
    assert_eq!(ipv4_header_checksum(&[]), 0xFFFF);
    assert_eq!(ipv4_header_checksum(&[0xFF, 0xFF, 0x00, 0x01]), 0xFFFE);
    // An odd last octet is left out.
    assert_eq!(ipv4_header_checksum(&[0x12, 0x34, 0x56]), 0xEDCB);
}

#[test]
fn ip_options_are_skipped_and_dropped() {
    let mut pkt: Vec<u8> = vec![
        0x46, 0x00, 0x00, 0x24, 0x12, 0x34, 0x40, 0x00, 0x40, 0x11, 0x00, 0x00, 10, 0, 0, 7, 172,
        19, 0, 2, 1, 1, 1, 0,
    ];
    pkt.extend_from_slice(&[0xD4, 0x31, 0x00, 0x35, 0x00, 0x0C, 0x00, 0x00]);
    pkt.extend_from_slice(b"QQQQ");
    let parsed = parse_udp_packet(&pkt).expect("packet parses");
    assert_eq!(parsed.dst_port, 53);
    assert_eq!(parsed.payload, b"QQQQ");
    let reply = build_udp_reply(&pkt, b"OK").expect("reply built");
    assert_eq!(reply.len(), 30);
    assert_eq!(reply[0], 0x45);
}

#[test]
fn payload_ends_with_the_packet_or_the_udp_length() {
    let mut pkt = synthetic_dns_query_packet();
    pkt[25] = 0x0A; // two octets of payload
    assert_eq!(parse_udp_packet(&pkt).expect("parses").payload, b"QQ");
    pkt[25] = 0xFF; // beyond the end
    assert_eq!(parse_udp_packet(&pkt).expect("parses").payload, b"QQQQ");
    pkt[25] = 0x08;
    assert_eq!(parse_udp_packet(&pkt).expect("parses").payload, b"");
    pkt[25] = 0x07; // shorter than the UDP header
    assert!(parse_udp_packet(&pkt).is_none());
}

#[test]
fn packets_that_are_not_ipv4_udp_are_refused() {
    let good = synthetic_dns_query_packet();
    assert!(parse_udp_packet(&good[..27]).is_none());
    assert!(build_udp_reply(&good[..27], b"").is_none());
    let mut v6 = good.clone();
    v6[0] = 0x65;
    assert!(parse_udp_packet(&v6).is_none());
    assert!(build_udp_reply(&v6, b"").is_none());
    let mut long_header = good.clone();
    long_header[0] = 0x4F;
    assert!(parse_udp_packet(&long_header).is_none());
    assert!(build_udp_reply(&long_header, b"").is_none());
    // A header shorter than the addresses is read but not answered.
    let mut short_header = good.clone();
    short_header[0] = 0x44;
    assert!(parse_udp_packet(&short_header).is_some());
    assert!(build_udp_reply(&short_header, b"").is_none());
}

#[test]
fn reply_payload_is_bounded_by_the_packet_length() {
    let req = synthetic_dns_query_packet();
    let largest = vec![7u8; 65_507];
    let reply = build_udp_reply(&req, &largest).expect("fits");
    assert_eq!(reply.len(), 65_535);
    assert_eq!(&reply[2..4], &[0xFF, 0xFF]);
    let too_large = vec![7u8; 65_508];
    assert!(build_udp_reply(&req, &too_large).is_none());
    let beyond_16_bits = vec![7u8; 65_536];
    assert!(build_udp_reply(&req, &beyond_16_bits).is_none());
}
