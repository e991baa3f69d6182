//! Peers, what the host reports to a node and what a node hands back.

use crate::protocol::{share, Message, Topic};
use std::sync::Arc;
use vstd::prelude::*;
use vstd::std_specs::convert::FromSpecImpl;

verus! {

/// Identifier of a network peer, chosen by the host.
#[derive(Clone, Copy, Debug, PartialEq, Eq, Hash, Structural)]
pub struct PeerId(pub u64);

/// What a node reports to the application.
#[derive(Debug, PartialEq, Eq)]
pub enum BroadcastEvent {
    /// The peer announced its interest in the topic.
    Subscribed(PeerId, Topic),
    /// The peer withdrew its interest in the topic.
    Unsubscribed(PeerId, Topic),
    /// The peer published the payload on the topic.
    Received(PeerId, Topic, Arc<[u8]>),
}

impl Clone for BroadcastEvent {
    /// A copy of the event that shares the payload with `self`.
    fn clone(&self) -> (copy: BroadcastEvent)
        ensures
            copy == *self,
    {
        match self {
            BroadcastEvent::Subscribed(peer, topic) => BroadcastEvent::Subscribed(*peer, *topic),
            BroadcastEvent::Unsubscribed(peer, topic) => BroadcastEvent::Unsubscribed(*peer, *topic),
            BroadcastEvent::Received(peer, topic, payload) => BroadcastEvent::Received(
                *peer,
                *topic,
                share(payload),
            ),
        }
    }
}

/// What a connection handler reports to a node.
#[derive(Debug)]
pub enum HandlerEvent {
    /// A message arrived from the remote.
    Rx(Message),
    /// A message was sent to the remote.
    Tx,
}

impl From<Message> for HandlerEvent {
    fn from(message: Message) -> (event: HandlerEvent) {
        HandlerEvent::Rx(message)
    }
}

impl FromSpecImpl<Message> for HandlerEvent {
    open spec fn obeys_from_spec() -> bool {
        true
    }

    open spec fn from_spec(message: Message) -> HandlerEvent {
        HandlerEvent::Rx(message)
    }
}

impl From<()> for HandlerEvent {
    fn from(sent: ()) -> (event: HandlerEvent) {
        HandlerEvent::Tx
    }
}

impl FromSpecImpl<()> for HandlerEvent {
    open spec fn obeys_from_spec() -> bool {
        true
    }

    open spec fn from_spec(sent: ()) -> HandlerEvent {
        HandlerEvent::Tx
    }
}

/// What the host reports about the connections to a peer.
#[derive(Clone, Copy, Debug, PartialEq, Eq, Structural)]
pub enum SwarmEvent {
    /// A connection to the peer opened; `other_established` counts the
    /// connections to it that were open already.
    ConnectionEstablished { peer_id: PeerId, other_established: usize },
    /// A connection to the peer closed; `remaining_established` counts the
    /// connections to it that are still open.
    ConnectionClosed { peer_id: PeerId, remaining_established: usize },
    /// Anything else.
    Other,
}

/// An entry of a node's outbound queue.
#[derive(Debug, PartialEq, Eq)]
pub enum OutboundEvent {
    /// Send the message to the peer.
    NotifyPeer { peer_id: PeerId, message: Message },
    /// Report the event to the application.
    Emit(BroadcastEvent),
}

impl Clone for OutboundEvent {
    /// A copy of the entry that shares the payload with `self`.
    fn clone(&self) -> (copy: OutboundEvent)
        ensures
            copy == *self,
    {
        match self {
            OutboundEvent::NotifyPeer { peer_id, message } => OutboundEvent::NotifyPeer {
                peer_id: *peer_id,
                message: message.clone(),
            },
            OutboundEvent::Emit(event) => OutboundEvent::Emit(event.clone()),
        }
    }
}

} // verus!
