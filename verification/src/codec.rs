//! Frame codec: pure functions that parse and validate Ethernet, ARP and
//! IPv4 headers from byte buffers, and that serialize synthetic Ethernet and
//! ARP frames. No I/O, no state.

use vstd::prelude::*;

verus! {

/// Length of the opaque framing header that the layer-2 transport puts in
/// front of every Ethernet frame it reads or writes. Its content is
/// irrelevant to the bridge: zero-filled on writes, skipped on reads.
pub const FRAMING_HEADER_LEN: usize = 4;

/// Length of an Ethernet header: destination (6), source (6), ethertype (2).
pub const ETHERNET_HEADER_LEN: usize = 14;

/// Minimum length of an IPv4 header.
pub const IPV4_MIN_HEADER_LEN: usize = 20;

/// Length of an ARP message for 6-byte hardware and 4-byte protocol
/// addresses.
pub const ARP_MESSAGE_LEN: usize = 28;

/// Ethertype of IPv4.
pub const ETHERTYPE_IPV4: u16 = 0x0800;

/// Ethertype of ARP.
pub const ETHERTYPE_ARP: u16 = 0x0806;

/// ARP operation code of a request.
pub const ARP_OPERATION_REQUEST: u16 = 1;

/// ARP operation code of a reply.
pub const ARP_OPERATION_REPLY: u16 = 2;

/// The big-endian 16-bit value of two consecutive bytes.
pub open spec fn spec_u16_be(hi: u8, lo: u8) -> u16 {
    (hi * 256 + lo) as u16
}

/// The zero-filled framing header put in front of every written frame.
pub open spec fn spec_framing_header() -> Seq<u8> {
    seq![0u8, 0u8, 0u8, 0u8]
}

/// The all-ones Ethernet broadcast address.
pub open spec fn spec_broadcast_mac() -> Seq<u8> {
    seq![0xffu8, 0xffu8, 0xffu8, 0xffu8, 0xffu8, 0xffu8]
}

/// The all-ones Ethernet broadcast address, as a value.
pub fn broadcast_mac() -> (mac: [u8; 6])
    ensures
        mac@ == spec_broadcast_mac(),
{
    let mac: [u8; 6] = [0xff, 0xff, 0xff, 0xff, 0xff, 0xff];
    proof {
        assert(mac@ =~= spec_broadcast_mac());
    }
    mac
}

/// The big-endian 16-bit value at `offset`.
fn read_u16_be(bytes: &[u8], offset: usize) -> (v: u16)
    requires
        offset + 2 <= bytes@.len(),
    ensures
        v == spec_u16_be(bytes@[offset as int], bytes@[offset as int + 1]),
{
    (bytes[offset] as u16) * 256 + (bytes[offset + 1] as u16)
}

/// The 6 bytes at `offset`, read as a hardware address.
fn read_mac(bytes: &[u8], offset: usize) -> (mac: [u8; 6])
    requires
        offset + 6 <= bytes@.len(),
    ensures
        mac@ == bytes@.subrange(offset as int, offset as int + 6),
{
    let mac: [u8; 6] = [
        bytes[offset],
        bytes[offset + 1],
        bytes[offset + 2],
        bytes[offset + 3],
        bytes[offset + 4],
        bytes[offset + 5],
    ];
    proof {
        assert(mac@ =~= bytes@.subrange(offset as int, offset as int + 6));
    }
    mac
}

/// A parsed Ethernet header.
pub struct EthernetHeader {
    /// Destination hardware address.
    pub dst: [u8; 6],
    /// Source hardware address.
    pub src: [u8; 6],
    /// Protocol of the payload, big-endian on the wire.
    pub ethertype: u16,
}

/// A parsed ARP message for 6-byte hardware and 4-byte protocol addresses.
pub struct ArpMessage {
    /// Operation code: request or reply.
    pub operation: u16,
    /// Hardware address of the sender.
    pub sender_mac: [u8; 6],
    /// Protocol address of the sender.
    pub sender_ip: [u8; 4],
    /// Hardware address of the target.
    pub target_mac: [u8; 6],
    /// Protocol address of the target.
    pub target_ip: [u8; 4],
}

/// A parsed IPv4 header (the fixed 20-byte part).
pub struct Ipv4Header {
    /// Version field; always 4 for a header this codec accepts.
    pub version: u8,
    /// Header length in 32-bit words.
    pub ihl: u8,
    /// Total length of header plus payload in bytes.
    pub total_len: u16,
    /// Time to live.
    pub ttl: u8,
    /// Protocol of the payload.
    pub protocol: u8,
    /// Source protocol address.
    pub source: [u8; 4],
    /// Destination protocol address.
    pub dest: [u8; 4],
}

/// Whether `bytes` starts with an Ethernet header.
pub open spec fn spec_ethernet_wf(bytes: Seq<u8>) -> bool {
    bytes.len() >= 14
}

/// Destination address of the Ethernet header at the start of `bytes`.
pub open spec fn spec_ethernet_dst(bytes: Seq<u8>) -> Seq<u8> {
    bytes.subrange(0, 6)
}

/// Source address of the Ethernet header at the start of `bytes`.
pub open spec fn spec_ethernet_src(bytes: Seq<u8>) -> Seq<u8> {
    bytes.subrange(6, 12)
}

/// Ethertype of the Ethernet header at the start of `bytes`.
pub open spec fn spec_ethernet_ethertype(bytes: Seq<u8>) -> u16 {
    spec_u16_be(bytes[12], bytes[13])
}

/// Payload of the Ethernet frame `bytes`: everything after the header.
pub open spec fn spec_ethernet_payload(bytes: Seq<u8>) -> Seq<u8> {
    bytes.skip(14)
}

/// Whether `bytes` starts with an IPv4 header: at least 20 bytes and a
/// version nibble of 4.
pub open spec fn spec_ipv4_valid(bytes: Seq<u8>) -> bool {
    bytes.len() >= 20 && bytes[0] / 16 == 4
}

/// Whether `bytes` is a well-formed ARP message: at least 28 bytes, with a
/// hardware address size of 6 and a protocol address size of 4.
pub open spec fn spec_arp_wf(bytes: Seq<u8>) -> bool {
    bytes.len() >= 28 && bytes[4] == 6 && bytes[5] == 4
}

/// Operation code of the ARP message `bytes`.
pub open spec fn spec_arp_operation(bytes: Seq<u8>) -> u16 {
    spec_u16_be(bytes[6], bytes[7])
}

/// Sender hardware address of the ARP message `bytes`.
pub open spec fn spec_arp_sender_mac(bytes: Seq<u8>) -> Seq<u8> {
    bytes.subrange(8, 14)
}

/// Sender protocol address of the ARP message `bytes`.
pub open spec fn spec_arp_sender_ip(bytes: Seq<u8>) -> Seq<u8> {
    bytes.subrange(14, 18)
}

/// Target hardware address of the ARP message `bytes`.
pub open spec fn spec_arp_target_mac(bytes: Seq<u8>) -> Seq<u8> {
    bytes.subrange(18, 24)
}

/// Target protocol address of the ARP message `bytes`.
pub open spec fn spec_arp_target_ip(bytes: Seq<u8>) -> Seq<u8> {
    bytes.subrange(24, 28)
}

/// The 4 bytes at `offset`, read as a protocol (IPv4) address.
fn read_ipv4_addr(bytes: &[u8], offset: usize) -> (addr: [u8; 4])
    requires
        offset + 4 <= bytes@.len(),
    ensures
        addr@ == bytes@.subrange(offset as int, offset as int + 4),
{
    let addr: [u8; 4] = [bytes[offset], bytes[offset + 1], bytes[offset + 2], bytes[offset + 3]];
    proof {
        assert(addr@ =~= bytes@.subrange(offset as int, offset as int + 4));
    }
    addr
}

/// Parses an Ethernet header off the front of `bytes`, returning the header
/// and the payload after it. Fails exactly when fewer than 14 bytes are
/// given.
pub fn parse_ethernet_frame<'a>(bytes: &'a [u8]) -> (r: Option<(EthernetHeader, &'a [u8])>)
    ensures
        r is Some <==> spec_ethernet_wf(bytes@),
        r matches Some((header, payload)) ==> {
            &&& header.dst@ == spec_ethernet_dst(bytes@)
            &&& header.src@ == spec_ethernet_src(bytes@)
            &&& header.ethertype == spec_ethernet_ethertype(bytes@)
            &&& payload@ == spec_ethernet_payload(bytes@)
        },
{
    if bytes.len() < ETHERNET_HEADER_LEN {
        return None;
    }
    let dst = read_mac(bytes, 0);
    let src = read_mac(bytes, 6);
    let ethertype = read_u16_be(bytes, 12);
    let payload = &bytes[ETHERNET_HEADER_LEN..bytes.len()];
    proof {
        assert(payload@ =~= spec_ethernet_payload(bytes@));
    }
    Some((EthernetHeader { dst, src, ethertype }, payload))
}

/// Parses an ARP message. Fails exactly when fewer than 28 bytes are given
/// or the hardware/protocol address sizes are not (6, 4).
pub fn parse_arp_message(bytes: &[u8]) -> (r: Option<ArpMessage>)
    ensures
        r is Some <==> spec_arp_wf(bytes@),
        r matches Some(message) ==> {
            &&& message.operation == spec_arp_operation(bytes@)
            &&& message.sender_mac@ == spec_arp_sender_mac(bytes@)
            &&& message.sender_ip@ == spec_arp_sender_ip(bytes@)
            &&& message.target_mac@ == spec_arp_target_mac(bytes@)
            &&& message.target_ip@ == spec_arp_target_ip(bytes@)
        },
{
    if bytes.len() < ARP_MESSAGE_LEN {
        return None;
    }
    if bytes[4] != 6 || bytes[5] != 4 {
        return None;
    }
    Some(
        ArpMessage {
            operation: read_u16_be(bytes, 6),
            sender_mac: read_mac(bytes, 8),
            sender_ip: read_ipv4_addr(bytes, 14),
            target_mac: read_mac(bytes, 18),
            target_ip: read_ipv4_addr(bytes, 24),
        },
    )
}

/// Parses an IPv4 header off the front of `bytes`, returning the header and
/// the bytes after the fixed 20-byte part. Fails exactly when fewer than 20
/// bytes are given or the version nibble is not 4.
pub fn parse_ipv4_header<'a>(bytes: &'a [u8]) -> (r: Option<(Ipv4Header, &'a [u8])>)
    ensures
        r is Some <==> spec_ipv4_valid(bytes@),
        r matches Some((header, remaining)) ==> {
            &&& header.version == 4
            &&& header.version == bytes@[0] / 16
            &&& header.ihl == bytes@[0] % 16
            &&& header.total_len == spec_u16_be(bytes@[2], bytes@[3])
            &&& header.ttl == bytes@[8]
            &&& header.protocol == bytes@[9]
            &&& header.source@ == bytes@.subrange(12, 16)
            &&& header.dest@ == bytes@.subrange(16, 20)
            &&& remaining@ == bytes@.skip(20)
        },
{
    if bytes.len() < IPV4_MIN_HEADER_LEN {
        return None;
    }
    let version = bytes[0] / 16;
    if version != 4 {
        return None;
    }
    let remaining = &bytes[IPV4_MIN_HEADER_LEN..bytes.len()];
    proof {
        assert(remaining@ =~= bytes@.skip(20));
    }
    Some(
        (
            Ipv4Header {
                version,
                ihl: bytes[0] % 16,
                total_len: read_u16_be(bytes, 2),
                ttl: bytes[8],
                protocol: bytes[9],
                source: read_ipv4_addr(bytes, 12),
                dest: read_ipv4_addr(bytes, 16),
            },
            remaining,
        ),
    )
}

/// Appends every byte of `bytes` to `out`, in order.
fn push_slice(out: &mut Vec<u8>, bytes: &[u8])
    ensures
        final(out)@ == old(out)@ + bytes@,
{
    let ghost start = out@;
    let mut i: usize = 0;
    while i < bytes.len()
        invariant
            i <= bytes@.len(),
            out@ == start + bytes@.take(i as int),
        decreases bytes@.len() - i,
    {
        out.push(bytes[i]);
        proof {
            assert(start + bytes@.take(i as int) + seq![bytes@[i as int]] =~= start + bytes@.take(
                i as int + 1,
            ));
        }
        i = i + 1;
    }
    proof {
        assert(start + bytes@.take(bytes@.len() as int) =~= start + bytes@);
    }
}

/// Appends every byte of the array `bytes` to `out`, in order.
fn push_array<const N: usize>(out: &mut Vec<u8>, bytes: &[u8; N])
    ensures
        final(out)@ == old(out)@ + bytes@,
{
    let ghost start = out@;
    let mut i: usize = 0;
    while i < N
        invariant
            i <= N,
            bytes@.len() == N,
            out@ == start + bytes@.take(i as int),
        decreases N - i,
    {
        out.push(bytes[i]);
        proof {
            assert(start + bytes@.take(i as int) + seq![bytes@[i as int]] =~= start + bytes@.take(
                i as int + 1,
            ));
        }
        i = i + 1;
    }
    proof {
        assert(start + bytes@.take(N as int) =~= start + bytes@);
    }
}

/// The frame written to the layer-2 side for the IPv4 packet `packet`:
/// framing header, Ethernet header with the IPv4 ethertype, then the packet,
/// byte for byte.
pub open spec fn spec_eth_ipv4_frame(dst: Seq<u8>, src: Seq<u8>, packet: Seq<u8>) -> Seq<u8> {
    spec_framing_header() + dst + src + seq![0x08u8, 0x00u8] + packet
}

/// Serializes a synthetic Ethernet frame that carries `ip_packet` from
/// `src_mac` to `dst_mac`, prefixed by a zero-filled framing header.
pub fn build_ethernet_ipv4_frame(dst_mac: &[u8; 6], src_mac: &[u8; 6], ip_packet: &[u8]) -> (frame:
    Vec<u8>)
    ensures
        frame@ == spec_eth_ipv4_frame(dst_mac@, src_mac@, ip_packet@),
{
    let mut frame: Vec<u8> = Vec::new();
    frame.push(0);
    frame.push(0);
    frame.push(0);
    frame.push(0);
    proof {
        assert(frame@ =~= spec_framing_header());
    }
    push_array(&mut frame, dst_mac);
    push_array(&mut frame, src_mac);
    frame.push(0x08);
    frame.push(0x00);
    proof {
        assert(frame@ =~= spec_framing_header() + dst_mac@ + src_mac@ + seq![0x08u8, 0x00u8]);
    }
    push_slice(&mut frame, ip_packet);
    frame
}

/// The frame written back to the layer-2 side in answer to an ARP request:
/// framing header, broadcast-to-broadcast Ethernet header with the ARP
/// ethertype, then an ARP reply that claims `responder_ip` is reachable at
/// `responder_mac` and is addressed to `requester_mac`/`requester_ip`.
pub open spec fn spec_arp_reply_frame(
    responder_mac: Seq<u8>,
    responder_ip: Seq<u8>,
    requester_mac: Seq<u8>,
    requester_ip: Seq<u8>,
) -> Seq<u8> {
    spec_framing_header() + spec_broadcast_mac() + spec_broadcast_mac() + seq![0x08u8, 0x06u8]
        + seq![0x00u8, 0x01u8, 0x08u8, 0x00u8, 0x06u8, 0x04u8, 0x00u8, 0x02u8] + responder_mac
        + responder_ip + requester_mac + requester_ip
}

/// Serializes a full broadcast-framed ARP reply, prefixed by a zero-filled
/// framing header.
pub fn build_arp_reply(
    responder_mac: &[u8; 6],
    responder_ip: &[u8; 4],
    requester_mac: &[u8; 6],
    requester_ip: &[u8; 4],
) -> (frame: Vec<u8>)
    ensures
        frame@ == spec_arp_reply_frame(responder_mac@, responder_ip@, requester_mac@, requester_ip@),
{
    let mut frame: Vec<u8> = Vec::new();
    // Framing header.
    frame.push(0);
    frame.push(0);
    frame.push(0);
    frame.push(0);
    // Ethernet header: broadcast destination and source, ARP ethertype.
    let bcast = broadcast_mac();
    push_array(&mut frame, &bcast);
    push_array(&mut frame, &bcast);
    frame.push(0x08);
    frame.push(0x06);
    // ARP fixed part: Ethernet hardware space, IPv4 protocol space, address
    // sizes (6, 4), operation reply.
    frame.push(0x00);
    frame.push(0x01);
    frame.push(0x08);
    frame.push(0x00);
    frame.push(0x06);
    frame.push(0x04);
    frame.push(0x00);
    frame.push(0x02);
    proof {
        assert(frame@ =~= spec_framing_header() + spec_broadcast_mac() + spec_broadcast_mac()
            + seq![0x08u8, 0x06u8] + seq![
            0x00u8,
            0x01u8,
            0x08u8,
            0x00u8,
            0x06u8,
            0x04u8,
            0x00u8,
            0x02u8,
        ]);
    }
    push_array(&mut frame, responder_mac);
    push_array(&mut frame, responder_ip);
    push_array(&mut frame, requester_mac);
    push_array(&mut frame, requester_ip);
    frame
}

/// Round trip: a frame built by [`build_ethernet_ipv4_frame`], once its
/// framing header is skipped, parses back as a well-formed Ethernet frame
/// whose header fields are the ones it was built from and whose payload is
/// the original IP packet, byte for byte; and a well-formed IPv4 packet is
/// still well-formed after the trip.
pub proof fn lemma_frame_round_trip(dst: Seq<u8>, src: Seq<u8>, packet: Seq<u8>)
    requires
        dst.len() == 6,
        src.len() == 6,
    ensures
        ({
            let eth = spec_eth_ipv4_frame(dst, src, packet).skip(FRAMING_HEADER_LEN as int);
            &&& spec_ethernet_wf(eth)
            &&& spec_ethernet_dst(eth) == dst
            &&& spec_ethernet_src(eth) == src
            &&& spec_ethernet_ethertype(eth) == ETHERTYPE_IPV4
            &&& spec_ethernet_payload(eth) == packet
            &&& spec_ipv4_valid(packet) ==> spec_ipv4_valid(spec_ethernet_payload(eth))
        }),
{
    let eth = spec_eth_ipv4_frame(dst, src, packet).skip(FRAMING_HEADER_LEN as int);
    assert(spec_ethernet_dst(eth) =~= dst);
    assert(spec_ethernet_src(eth) =~= src);
    assert(eth[12] == 0x08u8);
    assert(eth[13] == 0x00u8);
    assert(spec_ethernet_payload(eth) =~= packet);
}

} // verus!
