use packet_layers::builder::{AnyLayer, Layer, PacketBuilder};
use packet_layers::bytes::hex_string;
use packet_layers::ethernet::{Ethernet, Ethertype};
use packet_layers::ip::{calculate_checksum, Protocol, IP};
use packet_layers::slip::{encode, SLIP, SLIP_END, SLIP_ESC, SLIP_ESC_END, SLIP_ESC_ESC};
use packet_layers::udp::UDP;

/// Removes the byte-stuffing escapes from a frame interior.
fn unstuff(encoded: &[u8]) -> Vec<u8> {
    let mut out = Vec::new();
    let mut i = 0;
    while i < encoded.len() {
        if encoded[i] == SLIP_ESC && i + 1 < encoded.len() {
            match encoded[i + 1] {
                SLIP_ESC_END => out.push(SLIP_END),
                SLIP_ESC_ESC => out.push(SLIP_ESC),
                other => out.push(other),
            }
            i += 2;
        } else {
            out.push(encoded[i]);
            i += 1;
        }
    }
    out
}

#[test]
fn checksum() {
    let mut header = vec![
        0x45, 0x00, 0x00, 0x73, 0x00, 0x00, 0x40, 0x00, 0x40, 0x11, 0x00, 0x00, 0xc0, 0xa8,
        0x00, 0x01, 0xc0, 0xa8, 0x00, 0xc7,
    ];
    calculate_checksum(&mut header);
    assert_eq!(header[10], 0xb8);
    assert_eq!(header[11], 0x61);
}

#[test]
fn encoding() {
    let input: Vec<u8> = vec![0x0A, SLIP_ESC, 0x0B, SLIP_END, 0x0C];
    let expected: Vec<u8> = vec![
        SLIP_END,
        0x0A,
        SLIP_ESC,
        SLIP_ESC_ESC,
        0x0B,
        SLIP_ESC,
        SLIP_ESC_END,
        0x0C,
        SLIP_END,
    ];
    let result = encode(&input);
    assert_eq!(result, expected);
}

#[test]
fn empty_composer_is_identity() {
    let payload = vec![0x01, 0xC0, 0xFF, 0x00];
    let built = PacketBuilder::new().build(payload.clone());
    assert_eq!(built, payload);
}

#[test]
fn composer_applies_layers_in_reverse_insertion_order() {
    let payload = vec![0xAA, 0xBB, 0xCC];
    let a = AnyLayer::Ip(IP::new([10, 0, 0, 1], [10, 0, 0, 2], Protocol::UDP));
    let b = AnyLayer::Udp(UDP::new(1234, 5678));
    let built = PacketBuilder::new().layer(a).layer(b).build(payload.clone());
    let nested = a.wrap(&b.wrap(&payload));
    assert_eq!(built, nested);
}

#[test]
fn transport_header_layout_and_length_field() {
    let payload = vec![0x11; 10];
    let out = UDP::new(5000, 8080).wrap(&payload);
    assert_eq!(out.len(), 18);
    // Ports big-endian: 5000 = 0x1388, 8080 = 0x1F90.
    assert_eq!(&out[0..2], &[0x13, 0x88]);
    assert_eq!(&out[2..4], &[0x1F, 0x90]);
    // Length field: 8 + 10.
    assert_eq!(&out[4..6], &[0x00, 0x12]);
    // Checksum emitted as zero.
    assert_eq!(&out[6..8], &[0x00, 0x00]);
    assert_eq!(&out[8..], &payload[..]);
}

#[test]
fn transport_length_field_for_empty_payload() {
    let out = UDP::new(0, 0).wrap(&[]);
    assert_eq!(out.len(), 8);
    assert_eq!(&out[4..6], &[0x00, 0x08]);
}

#[test]
fn length_fields_truncate_to_sixteen_bits() {
    let payload = vec![0u8; 65530];
    let udp_out = UDP::new(1, 2).wrap(&payload);
    // 8 + 65530 modulo 2^16.
    assert_eq!(&udp_out[4..6], &[0x00, 0x02]);
    let ip = IP::new([1, 2, 3, 4], [5, 6, 7, 8], Protocol::UDP);
    let ip_out = ip.wrap(&payload);
    // 20 + 65530 modulo 2^16.
    assert_eq!(&ip_out[2..4], &[0x00, 0x0E]);
}

#[test]
fn network_header_fields_and_total_length() {
    let payload = vec![0x22; 10];
    let ip = IP::new([192, 168, 1, 20], [192, 168, 20, 10], Protocol::UDP);
    let out = ip.wrap(&payload);
    assert_eq!(out.len(), 30);
    // Version 4, header length 5 words; zero service bits.
    assert_eq!(out[0], 0x45);
    assert_eq!(out[1], 0x00);
    // Total length: 20 + 10.
    assert_eq!(&out[2..4], &[0x00, 0x1E]);
    // Identification and flags/fragment offset all zero.
    assert_eq!(&out[4..8], &[0x00, 0x00, 0x00, 0x00]);
    // Time to live 64, protocol 17.
    assert_eq!(out[8], 64);
    assert_eq!(out[9], 17);
    // Addresses.
    assert_eq!(&out[12..16], &[192, 168, 1, 20]);
    assert_eq!(&out[16..20], &[192, 168, 20, 10]);
    assert_eq!(&out[20..], &payload[..]);
}

#[test]
fn network_header_checksum_sums_to_all_ones() {
    let payload = vec![0x33; 7];
    let ip = IP::new([10, 1, 2, 3], [172, 16, 254, 1], Protocol::UDP);
    let out = ip.wrap(&payload);
    // The ones'-complement sum of a header carrying its own checksum must
    // fold to 0xFFFF.
    let mut sum: u32 = 0;
    for i in (0..20).step_by(2) {
        sum += ((out[i] as u32) << 8) | (out[i + 1] as u32);
    }
    while sum >> 16 != 0 {
        sum = (sum >> 16) + (sum & 0xFFFF);
    }
    assert_eq!(sum, 0xFFFF);
}

#[test]
fn framer_round_trip_with_sentinel_bytes() {
    let input = vec![0xC0, 0xDB, 0x00, 0xC0, 0xDB, 0xDC, 0xDD, 0x7E];
    let out = encode(&input);
    assert_eq!(out[0], 0xC0);
    assert_eq!(*out.last().unwrap(), 0xC0);
    // No unescaped END byte survives in the interior.
    assert!(out[1..out.len() - 1].iter().all(|&b| b != SLIP_END));
    assert_eq!(unstuff(&out[1..out.len() - 1]), input);
}

#[test]
fn framer_round_trip_of_plain_bytes() {
    let input = vec![0x01, 0x02, 0x03];
    let out = encode(&input);
    assert_eq!(out, vec![0xC0, 0x01, 0x02, 0x03, 0xC0]);
    assert_eq!(unstuff(&out[1..out.len() - 1]), input);
}

#[test]
fn link_header_field_placement() {
    let payload = vec![0x55, 0x66];
    let dst = [0xFF, 0xFF, 0xFF, 0xFF, 0xFF, 0xFF];
    let src = [0xAA, 0xAA, 0xAA, 0xAA, 0xAA, 0xAA];
    let out = Ethernet::new(dst, src, Ethertype::IPV4).build(payload.clone());
    assert_eq!(&out[0..6], &dst);
    assert_eq!(&out[6..12], &src);
    assert_eq!(&out[12..14], &[0x08, 0x00]);
    assert_eq!(&out[14..], &payload[..]);
}

#[test]
fn end_to_end_slip_carrier() {
    let payload = vec![0x10, 0x20, 0x30, 0x40, 0x50, 0x60, 0x07, 0xAB, 0xCD, 0xEF];
    let out = SLIP::new()
        .layer(AnyLayer::Ip(IP::new(
            [192, 168, 1, 20],
            [192, 168, 20, 10],
            Protocol::UDP,
        )))
        .layer(AnyLayer::Udp(UDP::new(5000, 8080)))
        .build(payload.clone());
    assert_eq!(out[0], 0xC0);
    assert_eq!(*out.last().unwrap(), 0xC0);
    let inner = unstuff(&out[1..out.len() - 1]);
    assert_eq!(inner.len(), 38);
    // The 20-byte network header.
    assert_eq!(inner[0], 0x45);
    assert_eq!(&inner[2..4], &[0x00, 38]);
    assert_eq!(inner[9], 17);
    assert_eq!(&inner[10..12], &[0xE4, 0x58]);
    assert_eq!(&inner[12..16], &[192, 168, 1, 20]);
    assert_eq!(&inner[16..20], &[192, 168, 20, 10]);
    // The 8-byte transport header.
    assert_eq!(&inner[20..22], &[0x13, 0x88]);
    assert_eq!(&inner[22..24], &[0x1F, 0x90]);
    assert_eq!(&inner[24..26], &[0x00, 18]);
    assert_eq!(&inner[26..28], &[0x00, 0x00]);
    // The raw payload.
    assert_eq!(&inner[28..], &payload[..]);
}

#[test]
fn end_to_end_link_header_carrier() {
    let payload = vec![0x10, 0x20, 0x30, 0x40, 0x50, 0x60, 0x07, 0xAB, 0xCD, 0xEF];
    let out = Ethernet::new(
        [0xFF, 0xFF, 0xFF, 0xFF, 0xFF, 0xFF],
        [0xAA, 0xAA, 0xAA, 0xAA, 0xAA, 0xAA],
        Ethertype::IPV4,
    )
    .layer(AnyLayer::Ip(IP::new(
        [192, 168, 1, 20],
        [192, 168, 20, 10],
        Protocol::UDP,
    )))
    .layer(AnyLayer::Udp(UDP::new(5000, 8080)))
    .build(payload.clone());
    assert_eq!(out.len(), 14 + 38);
    assert_eq!(&out[12..14], &[0x08, 0x00]);
    assert_eq!(out[14], 0x45);
    assert_eq!(&out[16..18], &[0x00, 38]);
    assert_eq!(&out[42..], &payload[..]);
}

#[test]
fn hex_rendering() {
    assert_eq!(hex_string(&[]), "");
    assert_eq!(hex_string(&[0x0A]), "0A");
    assert_eq!(hex_string(&[0x0A, 0xFF, 0x00, 0xC7]), "0A FF 00 C7");
}
