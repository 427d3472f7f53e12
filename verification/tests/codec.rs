use burritun::codec::build_arp_reply;
use burritun::codec::build_ethernet_ipv4_frame;
use burritun::codec::parse_arp_message;
use burritun::codec::parse_ethernet_frame;
use burritun::codec::parse_ipv4_header;

fn sample_ipv4_packet(payload: &[u8]) -> Vec<u8> {
    let mut packet = vec![
        0x45, 0x00, 0x00, 0x00, // version/ihl, tos, total length (filled below)
        0x00, 0x00, 0x00, 0x00, // identification, flags/fragment
        0x40, 0x11, 0x00, 0x00, // ttl, protocol (udp), checksum
        10, 0, 0, 2, // source
        10, 0, 0, 1, // destination
    ];
    let total = (20 + payload.len()) as u16;
    packet[2] = (total >> 8) as u8;
    packet[3] = (total & 0xff) as u8;
    packet.extend_from_slice(payload);
    packet
}

#[test]
fn ethernet_too_short_is_malformed() {
    let bytes = [0u8; 13];
    assert!(parse_ethernet_frame(&bytes).is_none());
}

#[test]
fn ethernet_parses_header_and_payload() {
    let mut bytes = vec![
        1, 2, 3, 4, 5, 6, // destination
        7, 8, 9, 10, 11, 12, // source
        0x08, 0x00, // ethertype
    ];
    bytes.extend_from_slice(&[0xaa, 0xbb, 0xcc]);
    let (header, payload) = parse_ethernet_frame(&bytes).unwrap();
    assert_eq!(header.dst, [1, 2, 3, 4, 5, 6]);
    assert_eq!(header.src, [7, 8, 9, 10, 11, 12]);
    assert_eq!(header.ethertype, 0x0800);
    assert_eq!(payload, &[0xaa, 0xbb, 0xcc]);
}

#[test]
fn ethernet_exactly_fourteen_bytes_has_empty_payload() {
    let bytes = [0xffu8; 14];
    let (header, payload) = parse_ethernet_frame(&bytes).unwrap();
    assert_eq!(header.ethertype, 0xffff);
    assert!(payload.is_empty());
}

#[test]
fn ipv4_too_short_is_malformed() {
    let bytes = [0x45u8; 19];
    assert!(parse_ipv4_header(&bytes).is_none());
}

#[test]
fn ipv4_wrong_version_is_malformed() {
    // An IPv6 header's version nibble is 6.
    let mut bytes = [0u8; 40];
    bytes[0] = 0x60;
    assert!(parse_ipv4_header(&bytes).is_none());
}

#[test]
fn ipv4_parses_header_fields() {
    let packet = sample_ipv4_packet(&[1, 2, 3, 4]);
    let (header, remaining) = parse_ipv4_header(&packet).unwrap();
    assert_eq!(header.version, 4);
    assert_eq!(header.ihl, 5);
    assert_eq!(header.total_len, 24);
    assert_eq!(header.ttl, 0x40);
    assert_eq!(header.protocol, 0x11);
    assert_eq!(header.source, [10, 0, 0, 2]);
    assert_eq!(header.dest, [10, 0, 0, 1]);
    assert_eq!(remaining, &[1, 2, 3, 4]);
}

fn sample_arp_request() -> Vec<u8> {
    let mut bytes = vec![
        0x00, 0x01, // hardware space: ethernet
        0x08, 0x00, // protocol space: ipv4
        6, 4, // address sizes
        0x00, 0x01, // operation: request
    ];
    bytes.extend_from_slice(&[0xaa; 6]); // sender hardware address
    bytes.extend_from_slice(&[10, 0, 0, 2]); // sender protocol address
    bytes.extend_from_slice(&[0; 6]); // target hardware address
    bytes.extend_from_slice(&[10, 0, 0, 1]); // target protocol address
    bytes
}

#[test]
fn arp_too_short_is_malformed() {
    let bytes = sample_arp_request();
    assert!(parse_arp_message(&bytes[..27]).is_none());
}

#[test]
fn arp_wrong_address_sizes_are_malformed() {
    let mut bytes = sample_arp_request();
    bytes[4] = 8;
    assert!(parse_arp_message(&bytes).is_none());
    let mut bytes = sample_arp_request();
    bytes[5] = 16;
    assert!(parse_arp_message(&bytes).is_none());
}

#[test]
fn arp_parses_request_fields() {
    let bytes = sample_arp_request();
    let message = parse_arp_message(&bytes).unwrap();
    assert_eq!(message.operation, 1);
    assert_eq!(message.sender_mac, [0xaa; 6]);
    assert_eq!(message.sender_ip, [10, 0, 0, 2]);
    assert_eq!(message.target_mac, [0; 6]);
    assert_eq!(message.target_ip, [10, 0, 0, 1]);
}

#[test]
fn built_ipv4_frame_has_exact_layout() {
    let frame = build_ethernet_ipv4_frame(
        &[1, 2, 3, 4, 5, 6],
        &[7, 8, 9, 10, 11, 12],
        &[0x45, 0xff],
    );
    let mut expected = vec![0, 0, 0, 0];
    expected.extend_from_slice(&[1, 2, 3, 4, 5, 6]);
    expected.extend_from_slice(&[7, 8, 9, 10, 11, 12]);
    expected.extend_from_slice(&[0x08, 0x00]);
    expected.extend_from_slice(&[0x45, 0xff]);
    assert_eq!(frame, expected);
}

#[test]
fn built_arp_reply_has_exact_layout() {
    let frame = build_arp_reply(
        &[0x11, 0x22, 0x33, 0x44, 0x55, 0x66],
        &[10, 0, 0, 1],
        &[0xaa; 6],
        &[10, 0, 0, 2],
    );
    let mut expected = vec![0, 0, 0, 0]; // framing header
    expected.extend_from_slice(&[0xff; 6]); // destination
    expected.extend_from_slice(&[0xff; 6]); // source
    expected.extend_from_slice(&[0x08, 0x06]); // ethertype: arp
    expected.extend_from_slice(&[0x00, 0x01, 0x08, 0x00, 6, 4, 0x00, 0x02]);
    expected.extend_from_slice(&[0x11, 0x22, 0x33, 0x44, 0x55, 0x66]); // sender mac
    expected.extend_from_slice(&[10, 0, 0, 1]); // sender ip
    expected.extend_from_slice(&[0xaa; 6]); // target mac
    expected.extend_from_slice(&[10, 0, 0, 2]); // target ip
    assert_eq!(frame, expected);
}

#[test]
fn round_trip_recovers_packet() {
    let packet = sample_ipv4_packet(&[9, 8, 7, 6, 5]);
    let frame = build_ethernet_ipv4_frame(&[0xff; 6], &[0x11; 6], &packet);
    let (header, payload) = parse_ethernet_frame(&frame[4..]).unwrap();
    assert_eq!(header.dst, [0xff; 6]);
    assert_eq!(header.src, [0x11; 6]);
    assert_eq!(header.ethertype, 0x0800);
    assert_eq!(payload, packet.as_slice());
    let (inner, remaining) = parse_ipv4_header(payload).unwrap();
    assert_eq!(inner.version, 4);
    assert_eq!(remaining, &[9, 8, 7, 6, 5]);
}
