//! Per-packet decision logic of the two forwarding directions.
//!
//! Each forwarding loop reads one buffer at a time from its side of the
//! bridge and hands it to one of the functions here, which decides — as a
//! pure computation — what, if anything, is written and to which side. The
//! loops themselves (blocking reads and writes on the virtual devices) live
//! outside the library.

use vstd::prelude::*;

use crate::codec::build_arp_reply;
use crate::codec::build_ethernet_ipv4_frame;
use crate::codec::broadcast_mac;
use crate::codec::parse_arp_message;
use crate::codec::parse_ethernet_frame;
use crate::codec::parse_ipv4_header;
use crate::codec::spec_arp_operation;
use crate::codec::spec_arp_reply_frame;
use crate::codec::spec_arp_sender_ip;
use crate::codec::spec_arp_sender_mac;
use crate::codec::spec_arp_target_ip;
use crate::codec::spec_arp_wf;
use crate::codec::spec_broadcast_mac;
use crate::codec::spec_eth_ipv4_frame;
use crate::codec::spec_ethernet_ethertype;
use crate::codec::spec_ethernet_payload;
use crate::codec::spec_ipv4_valid;
use crate::codec::ARP_OPERATION_REQUEST;
use crate::codec::ETHERNET_HEADER_LEN;
use crate::codec::ETHERTYPE_ARP;
use crate::codec::ETHERTYPE_IPV4;
use crate::codec::FRAMING_HEADER_LEN;
use crate::responder::respond;

verus! {

/// The frame that the layer-3 to layer-2 direction emits for the packet
/// `packet`, if any: a well-formed IPv4 packet is wrapped in a broadcast
/// Ethernet frame whose source is `link`; anything else is dropped.
pub open spec fn spec_forward_l3_packet(link: Seq<u8>, packet: Seq<u8>) -> Option<Seq<u8>> {
    if spec_ipv4_valid(packet) {
        Some(spec_eth_ipv4_frame(spec_broadcast_mac(), link, packet))
    } else {
        None
    }
}

/// Translates one packet read from the layer-3 side into the frame to write
/// to the layer-2 side.
///
/// A well-formed IPv4 packet is wrapped, unchanged, in a synthetic Ethernet
/// frame: broadcast destination, `link_address` as source, IPv4 ethertype,
/// prefixed by a zero-filled framing header. A malformed or non-IPv4 packet
/// yields nothing, so the caller drops it silently and keeps forwarding.
pub fn forward_l3_packet(link_address: &[u8; 6], packet: &[u8]) -> (r: Option<Vec<u8>>)
    ensures
        r matches Some(frame) ==> frame@ == spec_eth_ipv4_frame(
            spec_broadcast_mac(),
            link_address@,
            packet@,
        ),
        r is Some <==> spec_ipv4_valid(packet@),
{
    match parse_ipv4_header(packet) {
        Some(_) => {
            let bcast = broadcast_mac();
            Some(build_ethernet_ipv4_frame(&bcast, link_address, packet))
        },
        None => None,
    }
}

/// What the layer-2 to layer-3 direction does with one framed buffer.
pub enum L2Action {
    /// The buffer is dropped silently: too short, malformed, an ARP message
    /// that is not a request, or an ethertype the bridge does not support.
    Ignore,
    /// An ARP reply frame is written back to the layer-2 side.
    WriteL2(Vec<u8>),
    /// A bare IP packet is written to the layer-3 side.
    WriteL3(Vec<u8>),
}

/// The mathematical model of an [`L2Action`].
pub enum SpecL2Action {
    /// The buffer is dropped silently.
    Ignore,
    /// These bytes are written back to the layer-2 side.
    WriteL2(Seq<u8>),
    /// These bytes are written to the layer-3 side.
    WriteL3(Seq<u8>),
}

impl View for L2Action {
    type V = SpecL2Action;

    open spec fn view(&self) -> SpecL2Action {
        match self {
            L2Action::Ignore => SpecL2Action::Ignore,
            L2Action::WriteL2(frame) => SpecL2Action::WriteL2(frame@),
            L2Action::WriteL3(packet) => SpecL2Action::WriteL3(packet@),
        }
    }
}

/// What the layer-2 to layer-3 direction does with the framed buffer
/// `framed` (framing header still in front), given the bridge's link
/// address `link`.
///
/// An ARP request is answered on the spot with a proxy reply written back to
/// the layer-2 side. A frame with the IPv4 ethertype has its framing and
/// Ethernet headers stripped and the remaining payload written to the
/// layer-3 side as-is — the payload is passed through whether or not it is
/// itself a well-formed IPv4 packet, a deliberate best-effort choice.
/// Everything else is dropped silently.
pub open spec fn spec_handle_l2_frame(link: Seq<u8>, framed: Seq<u8>) -> SpecL2Action {
    if framed.len() < FRAMING_HEADER_LEN + ETHERNET_HEADER_LEN {
        SpecL2Action::Ignore
    } else {
        let eth = framed.skip(FRAMING_HEADER_LEN as int);
        let ethertype = spec_ethernet_ethertype(eth);
        if ethertype == ETHERTYPE_ARP {
            let arp = spec_ethernet_payload(eth);
            if spec_arp_wf(arp) && spec_arp_operation(arp) == ARP_OPERATION_REQUEST {
                SpecL2Action::WriteL2(
                    spec_arp_reply_frame(
                        link,
                        spec_arp_target_ip(arp),
                        spec_arp_sender_mac(arp),
                        spec_arp_sender_ip(arp),
                    ),
                )
            } else {
                SpecL2Action::Ignore
            }
        } else if ethertype == ETHERTYPE_IPV4 {
            SpecL2Action::WriteL3(spec_ethernet_payload(eth))
        } else {
            SpecL2Action::Ignore
        }
    }
}

/// Handles one framed buffer read from the layer-2 side, deciding what is
/// written where. The decision is exactly [`spec_handle_l2_frame`].
pub fn handle_l2_frame(link_address: &[u8; 6], framed: &[u8]) -> (action: L2Action)
    ensures
        action@ == spec_handle_l2_frame(link_address@, framed@),
{
    if framed.len() < FRAMING_HEADER_LEN + ETHERNET_HEADER_LEN {
        return L2Action::Ignore;
    }
    let eth_bytes = &framed[FRAMING_HEADER_LEN..framed.len()];
    proof {
        assert(eth_bytes@ =~= framed@.skip(FRAMING_HEADER_LEN as int));
    }
    match parse_ethernet_frame(eth_bytes) {
        None => L2Action::Ignore,
        Some((header, payload)) => {
            if header.ethertype == ETHERTYPE_ARP {
                match parse_arp_message(payload) {
                    Some(message) => match respond(&message, link_address) {
                        Some(reply) => L2Action::WriteL2(
                            build_arp_reply(
                                &reply.sender_mac,
                                &reply.sender_ip,
                                &reply.target_mac,
                                &reply.target_ip,
                            ),
                        ),
                        None => L2Action::Ignore,
                    },
                    None => L2Action::Ignore,
                }
            } else if header.ethertype == ETHERTYPE_IPV4 {
                L2Action::WriteL3(vstd::slice::slice_to_vec(payload))
            } else {
                L2Action::Ignore
            }
        },
    }
}

/// The frames that the layer-3 to layer-2 direction emits for the packets
/// `packets`, submitted in order: one frame per well-formed IPv4 packet,
/// none for the rest, with the relative order kept.
pub open spec fn spec_forward_l3_stream(link: Seq<u8>, packets: Seq<Seq<u8>>) -> Seq<Seq<u8>>
    decreases packets.len(),
{
    if packets.len() == 0 {
        Seq::empty()
    } else {
        let rest = spec_forward_l3_stream(link, packets.drop_last());
        match spec_forward_l3_packet(link, packets.last()) {
            Some(frame) => rest.push(frame),
            None => rest,
        }
    }
}

/// Translates a sequence of packets read from the layer-3 side, in order,
/// into the sequence of frames written to the layer-2 side: exactly what
/// forwarding them one at a time would write, with no reordering and no
/// coalescing.
pub fn forward_l3_batch(link_address: &[u8; 6], packets: &Vec<Vec<u8>>) -> (frames: Vec<Vec<u8>>)
    ensures
        frames.deep_view() == spec_forward_l3_stream(link_address@, packets.deep_view()),
{
    let mut frames: Vec<Vec<u8>> = Vec::new();
    let mut i: usize = 0;
    while i < packets.len()
        invariant
            i <= packets@.len(),
            frames.deep_view() == spec_forward_l3_stream(
                link_address@,
                packets.deep_view().take(i as int),
            ),
        decreases packets@.len() - i,
    {
        let ghost done = packets.deep_view().take(i as int);
        let ghost step = packets.deep_view().take(i as int + 1);
        proof {
            assert(step.drop_last() =~= done);
            assert(step.last() == packets@[i as int]@);
            assert(packets.deep_view()[i as int] == packets@[i as int]@);
        }
        match forward_l3_packet(link_address, packets[i].as_slice()) {
            Some(frame) => {
                let ghost before = frames.deep_view();
                frames.push(frame);
                proof {
                    assert(frames.deep_view() =~~= before.push(frame@));
                }
            },
            None => {},
        }
        i = i + 1;
    }
    proof {
        assert(packets.deep_view().take(packets@.len() as int) =~= packets.deep_view());
    }
    frames
}

/// Order is kept: a sequence of well-formed IPv4 packets submitted to the
/// layer-3 side in order yields exactly one frame per packet, and the `i`th
/// frame is the translation of the `i`th packet.
pub proof fn lemma_l3_stream_keeps_order(link: Seq<u8>, packets: Seq<Seq<u8>>)
    requires
        forall|i: int| 0 <= i < packets.len() ==> spec_ipv4_valid(#[trigger] packets[i]),
    ensures
        spec_forward_l3_stream(link, packets).len() == packets.len(),
        forall|i: int|
            0 <= i < packets.len() ==> spec_forward_l3_stream(link, packets)[i]
                == spec_eth_ipv4_frame(spec_broadcast_mac(), link, #[trigger] packets[i]),
    decreases packets.len(),
{
    if packets.len() > 0 {
        let head = packets.drop_last();
        assert(forall|i: int| 0 <= i < head.len() ==> spec_ipv4_valid(#[trigger] head[i]));
        lemma_l3_stream_keeps_order(link, head);
        assert(spec_ipv4_valid(packets.last()));
        let stream = spec_forward_l3_stream(link, packets);
        assert(stream == spec_forward_l3_stream(link, head).push(
            spec_eth_ipv4_frame(spec_broadcast_mac(), link, packets.last()),
        ));
        assert forall|i: int| 0 <= i < packets.len() implies stream[i] == spec_eth_ipv4_frame(
            spec_broadcast_mac(),
            link,
            #[trigger] packets[i],
        ) by {
            if i < packets.len() - 1 {
                assert(head[i] == packets[i]);
                assert(stream[i] == spec_forward_l3_stream(link, head)[i]);
            } else {
                assert(packets[i] == packets.last());
            }
        }
    }
}

} // verus!
