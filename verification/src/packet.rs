//! Encoding of one Ethernet frame carrying an IPv4 packet carrying a
//! TCP SYN segment, as a contiguous 54-byte header stack.
//!
//! Every field of the emitted frame is pinned down by the spec
//! functions below: `syn_frame` is the exact byte sequence the builder
//! produces for given addresses, ports and initial sequence number.

use vstd::prelude::*;
use crate::checksum::{
    checksum_of, checksum_valid, hi8, internet_checksum, lo8, word_sum,
};

verus! {

/// A 16-bit value as two big-endian bytes.
pub open spec fn be16(x: u16) -> Seq<u8> {
    seq![(x / 256) as u8, (x % 256) as u8]
}

/// A 32-bit value as four big-endian bytes.
pub open spec fn be32(x: u32) -> Seq<u8> {
    seq![
        (x / 0x1000000) as u8,
        ((x / 0x10000) % 256) as u8,
        ((x / 256) % 256) as u8,
        (x % 256) as u8,
    ]
}

/// The 14-byte Ethernet header: destination address, source address,
/// ethertype IPv4 (0x0800).
pub open spec fn ethernet_header(dst_mac: Seq<u8>, src_mac: Seq<u8>) -> Seq<u8> {
    dst_mac + src_mac + seq![0x08u8, 0x00u8]
}

/// The 20-byte IPv4 header with its checksum field still zero:
/// version 4, header length 5, total length 40 (20 IPv4 + 20 TCP),
/// identification 0, flags and fragment offset 0, time-to-live 64,
/// protocol TCP (6).
pub open spec fn ipv4_header_zeroed(src_ip: Seq<u8>, dst_ip: Seq<u8>) -> Seq<u8> {
    seq![
        0x45u8, 0x00u8, 0x00u8, 0x28u8,
        0x00u8, 0x00u8, 0x00u8, 0x00u8,
        0x40u8, 0x06u8, 0x00u8, 0x00u8,
    ] + src_ip + dst_ip
}

/// The IPv4 header checksum, computed over the header with the
/// checksum field zero.
pub open spec fn ipv4_checksum(src_ip: Seq<u8>, dst_ip: Seq<u8>) -> u16 {
    checksum_of(ipv4_header_zeroed(src_ip, dst_ip))
}

/// The finished 20-byte IPv4 header: the zeroed header with the
/// checksum written at offset 10, high byte first.
pub open spec fn ipv4_header(src_ip: Seq<u8>, dst_ip: Seq<u8>) -> Seq<u8> {
    ipv4_header_zeroed(src_ip, dst_ip)
        .update(10, hi8(ipv4_checksum(src_ip, dst_ip)))
        .update(11, lo8(ipv4_checksum(src_ip, dst_ip)))
}

/// The 12-byte pseudo-header the TCP checksum is computed over:
/// source address, destination address, a zero byte, protocol TCP (6),
/// and the TCP segment length (20: header only, no payload).
pub open spec fn pseudo_header(src_ip: Seq<u8>, dst_ip: Seq<u8>) -> Seq<u8> {
    src_ip + dst_ip + seq![0x00u8, 0x06u8, 0x00u8, 0x14u8]
}

/// The 20-byte TCP header with its checksum field still zero:
/// ports, the initial sequence number `isn`, acknowledgment number 0,
/// data offset 5, flags SYN only (0x02), window 1024, urgent pointer 0.
pub open spec fn tcp_header_zeroed(src_port: u16, dst_port: u16, isn: u32) -> Seq<u8> {
    be16(src_port) + be16(dst_port) + be32(isn) + seq![
        0x00u8, 0x00u8, 0x00u8, 0x00u8,
        0x50u8, 0x02u8, 0x04u8, 0x00u8,
        0x00u8, 0x00u8, 0x00u8, 0x00u8,
    ]
}

/// The TCP checksum, computed over the pseudo-header followed by the
/// TCP header with the checksum field zero.
pub open spec fn tcp_checksum(
    src_ip: Seq<u8>,
    dst_ip: Seq<u8>,
    src_port: u16,
    dst_port: u16,
    isn: u32,
) -> u16 {
    checksum_of(pseudo_header(src_ip, dst_ip) + tcp_header_zeroed(src_port, dst_port, isn))
}

/// The finished 20-byte TCP header: the zeroed header with the
/// checksum written at offset 16, high byte first.
pub open spec fn tcp_header(
    src_ip: Seq<u8>,
    dst_ip: Seq<u8>,
    src_port: u16,
    dst_port: u16,
    isn: u32,
) -> Seq<u8> {
    tcp_header_zeroed(src_port, dst_port, isn)
        .update(16, hi8(tcp_checksum(src_ip, dst_ip, src_port, dst_port, isn)))
        .update(17, lo8(tcp_checksum(src_ip, dst_ip, src_port, dst_port, isn)))
}

/// The whole 54-byte frame: Ethernet header, IPv4 header, TCP header.
pub open spec fn syn_frame(
    src_mac: Seq<u8>,
    dst_mac: Seq<u8>,
    src_ip: Seq<u8>,
    dst_ip: Seq<u8>,
    src_port: u16,
    dst_port: u16,
    isn: u32,
) -> Seq<u8> {
    ethernet_header(dst_mac, src_mac) + ipv4_header(src_ip, dst_ip)
        + tcp_header(src_ip, dst_ip, src_port, dst_port, isn)
}

/// Emits the Ethernet header bytes.
fn ethernet_header_bytes(dst_mac: [u8; 6], src_mac: [u8; 6]) -> (v: Vec<u8>)
    ensures
        v@ == ethernet_header(dst_mac@, src_mac@),
        v@.len() == 14,
{
    let mut v: Vec<u8> = Vec::new();
    v.push(dst_mac[0]);
    v.push(dst_mac[1]);
    v.push(dst_mac[2]);
    v.push(dst_mac[3]);
    v.push(dst_mac[4]);
    v.push(dst_mac[5]);
    v.push(src_mac[0]);
    v.push(src_mac[1]);
    v.push(src_mac[2]);
    v.push(src_mac[3]);
    v.push(src_mac[4]);
    v.push(src_mac[5]);
    v.push(0x08);
    v.push(0x00);
    proof {
        assert(v@ =~= ethernet_header(dst_mac@, src_mac@));
    }
    v
}

/// Emits the IPv4 header bytes, checksum included.
fn ipv4_header_bytes(src_ip: [u8; 4], dst_ip: [u8; 4]) -> (v: Vec<u8>)
    ensures
        v@ == ipv4_header(src_ip@, dst_ip@),
        v@.len() == 20,
{
    let mut v: Vec<u8> = Vec::new();
    v.push(0x45);
    v.push(0x00);
    v.push(0x00);
    v.push(0x28);
    v.push(0x00);
    v.push(0x00);
    v.push(0x00);
    v.push(0x00);
    v.push(0x40);
    v.push(0x06);
    v.push(0x00);
    v.push(0x00);
    v.push(src_ip[0]);
    v.push(src_ip[1]);
    v.push(src_ip[2]);
    v.push(src_ip[3]);
    v.push(dst_ip[0]);
    v.push(dst_ip[1]);
    v.push(dst_ip[2]);
    v.push(dst_ip[3]);
    proof {
        assert(v@ =~= ipv4_header_zeroed(src_ip@, dst_ip@));
    }
    let ck = internet_checksum(&v);
    v[10] = (ck / 256) as u8;
    v[11] = (ck % 256) as u8;
    proof {
        assert(v@ =~= ipv4_header(src_ip@, dst_ip@));
    }
    v
}

/// Emits the TCP header bytes, checksum included; the checksum covers
/// the pseudo-header for the given addresses.
fn tcp_header_bytes(
    src_ip: [u8; 4],
    dst_ip: [u8; 4],
    src_port: u16,
    dst_port: u16,
    isn: u32,
) -> (v: Vec<u8>)
    ensures
        v@ == tcp_header(src_ip@, dst_ip@, src_port, dst_port, isn),
        v@.len() == 20,
{
    let mut p: Vec<u8> = Vec::new();
    p.push(src_ip[0]);
    p.push(src_ip[1]);
    p.push(src_ip[2]);
    p.push(src_ip[3]);
    p.push(dst_ip[0]);
    p.push(dst_ip[1]);
    p.push(dst_ip[2]);
    p.push(dst_ip[3]);
    p.push(0x00);
    p.push(0x06);
    p.push(0x00);
    p.push(0x14);
    p.push((src_port / 256) as u8);
    p.push((src_port % 256) as u8);
    p.push((dst_port / 256) as u8);
    p.push((dst_port % 256) as u8);
    p.push((isn / 0x1000000) as u8);
    p.push(((isn / 0x10000) % 256) as u8);
    p.push(((isn / 256) % 256) as u8);
    p.push((isn % 256) as u8);
    p.push(0x00);
    p.push(0x00);
    p.push(0x00);
    p.push(0x00);
    p.push(0x50);
    p.push(0x02);
    p.push(0x04);
    p.push(0x00);
    p.push(0x00);
    p.push(0x00);
    p.push(0x00);
    p.push(0x00);
    proof {
        assert(p@ =~= pseudo_header(src_ip@, dst_ip@)
            + tcp_header_zeroed(src_port, dst_port, isn));
    }
    let ck = internet_checksum(&p);
    let mut v: Vec<u8> = Vec::new();
    let mut k: usize = 12;
    while k < 32
        invariant
            12 <= k <= 32,
            p@.len() == 32,
            v@ =~= p@.subrange(12, k as int),
        decreases 32 - k,
    {
        v.push(p[k]);
        k = k + 1;
    }
    proof {
        assert(v@ =~= tcp_header_zeroed(src_port, dst_port, isn));
    }
    v[16] = (ck / 256) as u8;
    v[17] = (ck % 256) as u8;
    proof {
        assert(v@ =~= tcp_header(src_ip@, dst_ip@, src_port, dst_port, isn));
    }
    v
}

/// One encoded frame: a fixed-capacity buffer and the count of leading
/// bytes that are valid.  Bytes past `len` are zero padding and must
/// never be transmitted.
pub struct SynPkt {
    pub buffer: [u8; 1500],
    pub len: usize,
}

/// Copies `src` into `buf` at offset `off`; every byte outside the
/// spliced range keeps its value.
fn splice(buf: &mut [u8; 1500], off: usize, src: &Vec<u8>)
    requires
        off + src@.len() <= 1500,
    ensures
        forall|i: int| 0 <= i < off ==> final(buf)@[i] == old(buf)@[i],
        forall|i: int| 0 <= i < src@.len() ==> final(buf)@[off + i] == src@[i],
        forall|i: int| off + src@.len() <= i < 1500 ==> final(buf)@[i] == old(buf)@[i],
{
    let mut k: usize = 0;
    while k < src.len()
        invariant
            k <= src@.len(),
            off + src@.len() <= 1500,
            buf@.len() == 1500,
            forall|i: int| 0 <= i < off ==> buf@[i] == old(buf)@[i],
            forall|i: int| 0 <= i < k ==> buf@[off + i] == src@[i],
            forall|i: int| off + k <= i < 1500 ==> buf@[i] == old(buf)@[i],
        decreases src@.len() - k,
    {
        buf[off + k] = src[k];
        k = k + 1;
    }
}

/// Builds the SYN frame for the given addresses and ports around the
/// supplied initial sequence number; fully deterministic.  The first
/// 54 bytes of the buffer are exactly `syn_frame`, the rest is zero.
pub fn mk_syn_packet_with_seq(
    src_mac: [u8; 6],
    dst_mac: [u8; 6],
    src_ip: [u8; 4],
    dst_ip: [u8; 4],
    src_port: u16,
    dst_port: u16,
    isn: u32,
) -> (pkt: SynPkt)
    ensures
        pkt.len == 54,
        pkt.buffer@.len() == 1500,
        pkt.buffer@.take(54) == syn_frame(
            src_mac@, dst_mac@, src_ip@, dst_ip@, src_port, dst_port, isn),
        forall|i: int| 54 <= i < 1500 ==> pkt.buffer@[i] == 0,
{
    let mut buffer = [0u8; 1500];
    let eth = ethernet_header_bytes(dst_mac, src_mac);
    splice(&mut buffer, 0, &eth);
    let ip4 = ipv4_header_bytes(src_ip, dst_ip);
    splice(&mut buffer, 14, &ip4);
    let tcp = tcp_header_bytes(src_ip, dst_ip, src_port, dst_port, isn);
    splice(&mut buffer, 34, &tcp);
    proof {
        assert(buffer@.take(54) =~= syn_frame(
            src_mac@, dst_mac@, src_ip@, dst_ip@, src_port, dst_port, isn));
    }
    SynPkt { buffer, len: 54 }
}

/// Relies on rand::random: draws one fresh 32-bit value from the
/// process-wide generator.  Nothing is promised of the value.
#[verifier::external_body]
fn random_seq_number() -> u32 {
    rand::random::<u32>()
}

/// Builds the SYN frame for the given addresses and ports, drawing the
/// initial sequence number from the process-wide random generator: the
/// result is `syn_frame` for some 32-bit sequence number, padded with
/// zeros to the buffer's capacity.
pub fn mk_syn_packet(
    src_mac: [u8; 6],
    dst_mac: [u8; 6],
    src_ip: [u8; 4],
    dst_ip: [u8; 4],
    src_port: u16,
    dst_port: u16,
) -> (pkt: SynPkt)
    ensures
        pkt.len == 54,
        pkt.buffer@.len() == 1500,
        exists|isn: u32| pkt.buffer@.take(54) == syn_frame(
            src_mac@, dst_mac@, src_ip@, dst_ip@, src_port, dst_port, isn),
        forall|i: int| 54 <= i < 1500 ==> pkt.buffer@[i] == 0,
{
    let isn = random_seq_number();
    let pkt = mk_syn_packet_with_seq(
        src_mac, dst_mac, src_ip, dst_ip, src_port, dst_port, isn);
    proof {
        assert(pkt.buffer@.take(54) == syn_frame(
            src_mac@, dst_mac@, src_ip@, dst_ip@, src_port, dst_port, isn));
    }
    pkt
}

} // verus!
