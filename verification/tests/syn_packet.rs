use synpkt::checksum::internet_checksum;
use synpkt::packet::{mk_syn_packet, mk_syn_packet_with_seq, SynPkt};

use smoltcp::wire::{EthernetFrame, Ipv4Address, Ipv4Packet, IpAddress, TcpPacket};

const SRC_MAC: [u8; 6] = [0x18, 0x65, 0x90, 0xdd, 0x4c, 0x95];
const DST_MAC: [u8; 6] = [0xd4, 0xee, 0x07, 0x5a, 0x67, 0x40];
const SRC_IP: [u8; 4] = [192, 168, 199, 200];
const DST_IP: [u8; 4] = [192, 168, 199, 1];

fn build(dst_port: u16) -> SynPkt {
    mk_syn_packet(SRC_MAC, DST_MAC, SRC_IP, DST_IP, 10000, dst_port)
}

/// One's-complement fold of the 16-bit big-endian words of `data`,
/// written independently of the library, for cross-checking.
fn fold_words(data: &[u8]) -> u16 {
    assert!(data.len() % 2 == 0);
    let mut acc: u32 = 0;
    let mut i = 0;
    while i < data.len() {
        acc += 256 * (data[i] as u32) + (data[i + 1] as u32);
        i += 2;
    }
    while acc > 0xffff {
        acc = (acc & 0xffff) + (acc >> 16);
    }
    acc as u16
}

#[test]
fn length_is_54() {
    let pkt = build(81);
    assert_eq!(pkt.len, 54);
    assert_eq!(pkt.buffer.len(), 1500);
}

#[test]
fn concrete_scenario() {
    let pkt = build(81);
    assert_eq!(pkt.len, 54);
    let mut head = Vec::new();
    head.extend_from_slice(&DST_MAC);
    head.extend_from_slice(&SRC_MAC);
    head.extend_from_slice(&[0x08, 0x00]);
    assert_eq!(&pkt.buffer[0..14], &head[..]);
    assert_eq!(pkt.buffer[23], 0x06);
    assert_eq!(&pkt.buffer[36..38], &[0x00, 0x51]);
}

#[test]
fn round_trip_fields() {
    let pkt = mk_syn_packet_with_seq(SRC_MAC, DST_MAC, SRC_IP, DST_IP, 10000, 81, 0x012a2c00);
    let frame = EthernetFrame::new_checked(&pkt.buffer[..pkt.len]).unwrap();
    assert_eq!(frame.dst_addr().as_bytes(), &DST_MAC);
    assert_eq!(frame.src_addr().as_bytes(), &SRC_MAC);

    let ip = Ipv4Packet::new_checked(frame.payload()).unwrap();
    assert_eq!(ip.src_addr().octets(), SRC_IP);
    assert_eq!(ip.dst_addr().octets(), DST_IP);
    assert_eq!(ip.total_len(), 40);
    assert_eq!(ip.hop_limit(), 64);

    let tcp = TcpPacket::new_checked(ip.payload()).unwrap();
    assert_eq!(tcp.src_port(), 10000);
    assert_eq!(tcp.dst_port(), 81);
    assert_eq!(tcp.seq_number().0, 0x012a2c00);
    assert_eq!(tcp.ack_number().0, 0);
    assert_eq!(tcp.window_len(), 1024);
}

#[test]
fn flags_syn_only() {
    let pkt = build(443);
    let frame = EthernetFrame::new_checked(&pkt.buffer[..pkt.len]).unwrap();
    let ip = Ipv4Packet::new_checked(frame.payload()).unwrap();
    let tcp = TcpPacket::new_checked(ip.payload()).unwrap();
    assert!(tcp.syn());
    assert!(!tcp.ack());
    assert!(!tcp.fin());
    assert!(!tcp.rst());
    assert!(!tcp.psh());
    assert!(!tcp.urg());
    assert_eq!(pkt.buffer[47], 0x02);
}

#[test]
fn checksums_validate() {
    let pkt = build(81);
    let frame = EthernetFrame::new_checked(&pkt.buffer[..pkt.len]).unwrap();
    let ip = Ipv4Packet::new_checked(frame.payload()).unwrap();
    assert!(ip.verify_checksum());
    let src = IpAddress::Ipv4(Ipv4Address::new(192, 168, 199, 200));
    let dst = IpAddress::Ipv4(Ipv4Address::new(192, 168, 199, 1));
    let tcp = TcpPacket::new_checked(ip.payload()).unwrap();
    assert!(tcp.verify_checksum(&src, &dst));
}

#[test]
fn checksums_validate_by_folding() {
    let pkt = build(8080);
    // IPv4: the fold of all ten header words must be 0xffff.
    assert_eq!(fold_words(&pkt.buffer[14..34]), 0xffff);
    // TCP: pseudo-header plus TCP header must fold to 0xffff too.
    let mut data = Vec::new();
    data.extend_from_slice(&SRC_IP);
    data.extend_from_slice(&DST_IP);
    data.extend_from_slice(&[0x00, 0x06, 0x00, 0x14]);
    data.extend_from_slice(&pkt.buffer[34..54]);
    assert_eq!(fold_words(&data), 0xffff);
}

#[test]
fn checksum_known_value() {
    // Classic worked example: 00 01 f2 03 f4 f5 f6 f7 sums to 0x2ddf0,
    // folds to 0xddf2, complement 0x220d.
    let data = vec![0x00u8, 0x01, 0xf2, 0x03, 0xf4, 0xf5, 0xf6, 0xf7];
    assert_eq!(internet_checksum(&data), 0x220d);
}

#[test]
fn checksum_of_zeros_is_all_ones() {
    let data = vec![0u8; 8];
    assert_eq!(internet_checksum(&data), 0xffff);
}

#[test]
fn sequence_numbers_vary() {
    let first = build(81);
    let first_seq: [u8; 4] = first.buffer[38..42].try_into().unwrap();
    let mut saw_different = false;
    for _ in 0..1000 {
        let pkt = build(81);
        let isn: [u8; 4] = pkt.buffer[38..42].try_into().unwrap();
        if isn != first_seq {
            saw_different = true;
            break;
        }
    }
    assert!(saw_different);
}

#[test]
fn structure_is_idempotent() {
    let a = build(81);
    let b = build(81);
    for i in 0..1500 {
        let in_seq = (38..42).contains(&i);
        let in_tcp_ck = (50..52).contains(&i);
        if !in_seq && !in_tcp_ck {
            assert_eq!(a.buffer[i], b.buffer[i], "byte {} differs", i);
        }
    }
}

#[test]
fn builder_with_seq_is_deterministic() {
    let a = mk_syn_packet_with_seq(SRC_MAC, DST_MAC, SRC_IP, DST_IP, 10000, 81, 7);
    let b = mk_syn_packet_with_seq(SRC_MAC, DST_MAC, SRC_IP, DST_IP, 10000, 81, 7);
    assert_eq!(a.len, b.len);
    assert_eq!(&a.buffer[..], &b.buffer[..]);
}

#[test]
fn padding_is_zero() {
    let pkt = build(81);
    for i in 54..1500 {
        assert_eq!(pkt.buffer[i], 0);
    }
}

#[test]
fn every_port_encodes_its_own_bytes() {
    for port in [0u16, 1, 80, 255, 256, 1024, 65535] {
        let pkt = build(port);
        assert_eq!(pkt.buffer[36], (port >> 8) as u8);
        assert_eq!(pkt.buffer[37], (port & 0xff) as u8);
        let frame = EthernetFrame::new_checked(&pkt.buffer[..pkt.len]).unwrap();
        let ip = Ipv4Packet::new_checked(frame.payload()).unwrap();
        assert!(ip.verify_checksum());
    }
}
