//! Frame-level theorems: for every choice of addresses, ports and
//! sequence number, the emitted frame has the right length, reproduces
//! the inputs byte for byte, carries exactly the SYN flag, validates
//! both checksums, and differs between two sequence numbers only in
//! the sequence-number and TCP-checksum bytes.

use vstd::prelude::*;
use crate::checksum::{checksum_of, checksum_valid, hi8, lo8};
use crate::packet::{
    be16, be32, ipv4_header, ipv4_header_zeroed, pseudo_header, syn_frame, tcp_header,
    tcp_header_zeroed,
};
use crate::checksum::lemma_checksum_patch;

verus! {

/// The frame is always exactly 54 bytes: 14 Ethernet + 20 IPv4 + 20 TCP.
pub proof fn lemma_syn_frame_length(
    src_mac: Seq<u8>,
    dst_mac: Seq<u8>,
    src_ip: Seq<u8>,
    dst_ip: Seq<u8>,
    src_port: u16,
    dst_port: u16,
    isn: u32,
)
    requires
        src_mac.len() == 6,
        dst_mac.len() == 6,
        src_ip.len() == 4,
        dst_ip.len() == 4,
    ensures
        syn_frame(src_mac, dst_mac, src_ip, dst_ip, src_port, dst_port, isn).len() == 54,
{
}

/// Parsing the frame as Ethernet/IPv4/TCP reproduces every input:
/// the link addresses at their Ethernet offsets, ethertype IPv4, the
/// protocol field TCP, the network addresses at their IPv4 offsets,
/// and both ports big-endian at their TCP offsets, with the chosen
/// sequence number.
pub proof fn lemma_syn_frame_round_trip(
    src_mac: Seq<u8>,
    dst_mac: Seq<u8>,
    src_ip: Seq<u8>,
    dst_ip: Seq<u8>,
    src_port: u16,
    dst_port: u16,
    isn: u32,
)
    requires
        src_mac.len() == 6,
        dst_mac.len() == 6,
        src_ip.len() == 4,
        dst_ip.len() == 4,
    ensures
        syn_frame(src_mac, dst_mac, src_ip, dst_ip, src_port, dst_port, isn)
            .subrange(0, 6) == dst_mac,
        syn_frame(src_mac, dst_mac, src_ip, dst_ip, src_port, dst_port, isn)
            .subrange(6, 12) == src_mac,
        syn_frame(src_mac, dst_mac, src_ip, dst_ip, src_port, dst_port, isn)[12] == 0x08,
        syn_frame(src_mac, dst_mac, src_ip, dst_ip, src_port, dst_port, isn)[13] == 0x00,
        syn_frame(src_mac, dst_mac, src_ip, dst_ip, src_port, dst_port, isn)[23] == 0x06,
        syn_frame(src_mac, dst_mac, src_ip, dst_ip, src_port, dst_port, isn)
            .subrange(26, 30) == src_ip,
        syn_frame(src_mac, dst_mac, src_ip, dst_ip, src_port, dst_port, isn)
            .subrange(30, 34) == dst_ip,
        syn_frame(src_mac, dst_mac, src_ip, dst_ip, src_port, dst_port, isn)
            .subrange(34, 36) == be16(src_port),
        syn_frame(src_mac, dst_mac, src_ip, dst_ip, src_port, dst_port, isn)
            .subrange(36, 38) == be16(dst_port),
        syn_frame(src_mac, dst_mac, src_ip, dst_ip, src_port, dst_port, isn)
            .subrange(38, 42) == be32(isn),
{
    let f = syn_frame(src_mac, dst_mac, src_ip, dst_ip, src_port, dst_port, isn);
    assert(f.subrange(0, 6) =~= dst_mac);
    assert(f.subrange(6, 12) =~= src_mac);
    assert(f.subrange(26, 30) =~= src_ip);
    assert(f.subrange(30, 34) =~= dst_ip);
    assert(f.subrange(34, 36) =~= be16(src_port));
    assert(f.subrange(36, 38) =~= be16(dst_port));
    assert(f.subrange(38, 42) =~= be32(isn));
}

/// The TCP control byte carries exactly the SYN bit (0x02), and the
/// data-offset byte encodes a 20-byte header (0x50), for all inputs.
pub proof fn lemma_syn_flag_only(
    src_mac: Seq<u8>,
    dst_mac: Seq<u8>,
    src_ip: Seq<u8>,
    dst_ip: Seq<u8>,
    src_port: u16,
    dst_port: u16,
    isn: u32,
)
    requires
        src_mac.len() == 6,
        dst_mac.len() == 6,
        src_ip.len() == 4,
        dst_ip.len() == 4,
    ensures
        syn_frame(src_mac, dst_mac, src_ip, dst_ip, src_port, dst_port, isn)[46] == 0x50,
        syn_frame(src_mac, dst_mac, src_ip, dst_ip, src_port, dst_port, isn)[47] == 0x02,
{
}

/// Both checksums of the frame validate: the IPv4 header checksum over
/// the IPv4 header bytes, and the TCP checksum over the pseudo-header
/// followed by the TCP header bytes.
pub proof fn lemma_checksums_valid(
    src_mac: Seq<u8>,
    dst_mac: Seq<u8>,
    src_ip: Seq<u8>,
    dst_ip: Seq<u8>,
    src_port: u16,
    dst_port: u16,
    isn: u32,
)
    requires
        src_mac.len() == 6,
        dst_mac.len() == 6,
        src_ip.len() == 4,
        dst_ip.len() == 4,
    ensures
        checksum_valid(syn_frame(src_mac, dst_mac, src_ip, dst_ip, src_port, dst_port, isn)
            .subrange(14, 34)),
        checksum_valid(pseudo_header(src_ip, dst_ip)
            + syn_frame(src_mac, dst_mac, src_ip, dst_ip, src_port, dst_port, isn)
                .subrange(34, 54)),
{
    let f = syn_frame(src_mac, dst_mac, src_ip, dst_ip, src_port, dst_port, isn);

    let z4 = ipv4_header_zeroed(src_ip, dst_ip);
    assert(f.subrange(14, 34) =~= ipv4_header(src_ip, dst_ip));
    lemma_checksum_patch(z4, 10);
    assert(f.subrange(14, 34) == z4.update(10, hi8(checksum_of(z4)))
        .update(11, lo8(checksum_of(z4))));

    let zt = pseudo_header(src_ip, dst_ip) + tcp_header_zeroed(src_port, dst_port, isn);
    assert(f.subrange(34, 54) =~= tcp_header(src_ip, dst_ip, src_port, dst_port, isn));
    lemma_checksum_patch(zt, 28);
    assert(pseudo_header(src_ip, dst_ip) + f.subrange(34, 54)
        =~= zt.update(28, hi8(checksum_of(zt))).update(29, lo8(checksum_of(zt))));
}

/// Two frames that differ only in the chosen sequence number agree on
/// every byte outside the sequence-number field (bytes 38 to 41) and
/// the TCP checksum field (bytes 50 and 51).
pub proof fn lemma_structure_idempotent(
    src_mac: Seq<u8>,
    dst_mac: Seq<u8>,
    src_ip: Seq<u8>,
    dst_ip: Seq<u8>,
    src_port: u16,
    dst_port: u16,
    isn1: u32,
    isn2: u32,
)
    requires
        src_mac.len() == 6,
        dst_mac.len() == 6,
        src_ip.len() == 4,
        dst_ip.len() == 4,
    ensures
        forall|i: int| 0 <= i < 54 && !(38 <= i < 42) && !(50 <= i < 52)
            ==> syn_frame(src_mac, dst_mac, src_ip, dst_ip, src_port, dst_port, isn1)[i]
                == syn_frame(src_mac, dst_mac, src_ip, dst_ip, src_port, dst_port, isn2)[i],
{
    let f1 = syn_frame(src_mac, dst_mac, src_ip, dst_ip, src_port, dst_port, isn1);
    let f2 = syn_frame(src_mac, dst_mac, src_ip, dst_ip, src_port, dst_port, isn2);
    assert forall|i: int| 0 <= i < 54 && !(38 <= i < 42) && !(50 <= i < 52)
        implies f1[i] == f2[i] by {
        if i < 34 {
            assert(f1[i] == f2[i]);
        } else {
            let t1 = tcp_header(src_ip, dst_ip, src_port, dst_port, isn1);
            let t2 = tcp_header(src_ip, dst_ip, src_port, dst_port, isn2);
            assert(f1[i] == t1[i - 34] && f2[i] == t2[i - 34]);
            assert(t1[i - 34] == t2[i - 34]);
        }
    }
}

} // verus!
