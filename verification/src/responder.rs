//! Proxy-ARP responder: decides whether and how to answer a parsed ARP
//! message on behalf of the bridge.

use vstd::prelude::*;

use crate::codec::ArpMessage;
use crate::codec::ARP_OPERATION_REPLY;
use crate::codec::ARP_OPERATION_REQUEST;

verus! {

/// Answers an ARP message on behalf of whatever protocol address it asks
/// about.
///
/// Only a request receives a reply; every other operation yields none. The
/// reply claims that the request's target protocol address is reachable at
/// `link_address` — deliberately without checking that the target address is
/// meaningful, so that address resolution on the layer-2 side never has to
/// reach the layer-3 side. The reply is addressed back to the requester's
/// hardware and protocol address.
pub fn respond(request: &ArpMessage, link_address: &[u8; 6]) -> (r: Option<ArpMessage>)
    ensures
        r is Some <==> request.operation == ARP_OPERATION_REQUEST,
        r matches Some(reply) ==> {
            &&& reply.operation == ARP_OPERATION_REPLY
            &&& reply.sender_mac@ == link_address@
            &&& reply.sender_ip@ == request.target_ip@
            &&& reply.target_mac@ == request.sender_mac@
            &&& reply.target_ip@ == request.sender_ip@
        },
{
    if request.operation != ARP_OPERATION_REQUEST {
        return None;
    }
    Some(
        ArpMessage {
            operation: ARP_OPERATION_REPLY,
            sender_mac: *link_address,
            sender_ip: request.target_ip,
            target_mac: request.sender_mac,
            target_ip: request.sender_ip,
        },
    )
}

} // verus!
