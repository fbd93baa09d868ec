//! The point-to-point pump steps.
//!
//! One pump reads frames from the virtual interface and sends the pump
//! buffer verbatim to the one configured remote; the other receives
//! datagrams and writes them verbatim back into the interface when — and
//! only when — the sender is IPv4. No header is added beyond the UDP
//! encapsulation itself: datagram boundaries are the only framing.

use vstd::prelude::*;
use crate::buffer::{lemma_mtu_boundary, stored_bytes, PacketBuffer, TUN_MTU};
use crate::endpoint::Endpoint;

verus! {

/// The payload of the datagram that encapsulates a frame: the frame's
/// bytes unchanged.
pub open spec fn encapsulated_payload(frame: Seq<u8>) -> Seq<u8> {
    frame
}

/// What is written back into the virtual interface for a datagram from the
/// given sender: the payload verbatim for an IPv4 sender, nothing for any
/// other sender.
pub open spec fn delivered_frame(payload: Seq<u8>, sender: Endpoint) -> Option<Seq<u8>> {
    if sender.is_ipv4() {
        Some(payload)
    } else {
        None
    }
}

/// Interface-to-socket step: the datagram sent to the configured remote is
/// the pump's whole buffer, byte for byte.
pub fn interface_to_socket_step(buffer: &PacketBuffer) -> (payload: Vec<u8>)
    ensures
        payload@ == encapsulated_payload(buffer@),
        payload@.len() == TUN_MTU,
{
    buffer.to_vec()
}

/// Socket-to-interface step: a datagram from an IPv4 sender is handed on
/// byte for byte to be written into the interface; a datagram from any
/// other sender is silently ignored.
pub fn socket_to_interface_step(payload: Vec<u8>, sender: Endpoint) -> (frame: Option<Vec<u8>>)
    ensures
        match frame {
            Some(f) => delivered_frame(payload@, sender) == Some(f@),
            None => delivered_frame(payload@, sender) is None,
        },
{
    match sender {
        Endpoint::V4(_) => Some(payload),
        Endpoint::V6(_) => None,
    }
}

/// Law (round-trip bridging): a frame read into the pump buffer stands
/// byte-for-byte at the front of the datagram sent to the remote, and a
/// datagram arriving from an IPv4 sender is delivered to the interface
/// byte-for-byte.
pub proof fn lemma_round_trip_bridging(residue: Seq<u8>, frame: Seq<u8>, sender: Endpoint)
    requires
        residue.len() == TUN_MTU,
        frame.len() <= TUN_MTU,
        sender is V4,
    ensures
        encapsulated_payload(stored_bytes(residue, frame)).take(frame.len() as int) == frame,
        delivered_frame(encapsulated_payload(stored_bytes(residue, frame)), sender) == Some(
            stored_bytes(residue, frame),
        ),
{
    lemma_mtu_boundary(residue, frame);
}

} // verus!
