//! What holds of the model whatever the order of operations.

use crate::event::{BroadcastEvent, HandlerEvent, OutboundEvent, PeerId, SwarmEvent};
use crate::model::{enumerates, notify_each, BroadcastView};
use crate::protocol::{BroadcastConfig, Message, Topic};
use std::sync::Arc;
use vstd::prelude::*;

verus! {

/// A fresh node has a symmetric index.
pub proof fn lemma_empty_symmetric(config: BroadcastConfig)
    ensures
        BroadcastView::empty(config).index_symmetric(),
{
}

/// The index is as symmetric as it was when neither of its maps changed.
pub proof fn lemma_queue_keeps_symmetry(before: BroadcastView, after: BroadcastView)
    requires
        before.index_symmetric(),
        after.peer_topics == before.peer_topics,
        after.topic_peers == before.topic_peers,
    ensures
        after.index_symmetric(),
{
    assert forall|p: PeerId, t: Topic| after.announced(p, t) <==> after.reaches(t, p) by {
        assert(before.announced(p, t) <==> before.reaches(t, p));
    }
}

/// A peer that connects keeps the index symmetric.
pub proof fn lemma_with_peer_symmetric(state: BroadcastView, peer: PeerId)
    requires
        state.index_symmetric(),
    ensures
        state.with_peer(peer).index_symmetric(),
{
    let after = state.with_peer(peer);
    assert forall|p: PeerId, t: Topic| after.announced(p, t) <==> after.reaches(t, p) by {
        assert(state.announced(p, t) <==> state.reaches(t, p));
    }
}

/// A peer that disconnects keeps the index symmetric.
pub proof fn lemma_without_peer_symmetric(state: BroadcastView, peer: PeerId)
    requires
        state.index_symmetric(),
    ensures
        state.without_peer(peer).index_symmetric(),
{
    let after = state.without_peer(peer);
    assert forall|p: PeerId, t: Topic| after.announced(p, t) <==> after.reaches(t, p) by {
        assert(state.announced(p, t) <==> state.reaches(t, p));
    }
}

/// An announced subscription keeps the index symmetric.
pub proof fn lemma_subscribed_symmetric(state: BroadcastView, peer: PeerId, topic: Topic)
    requires
        state.index_symmetric(),
        state.connected(peer),
    ensures
        state.subscribed(peer, topic).index_symmetric(),
{
    let after = state.subscribed(peer, topic);
    assert forall|p: PeerId, t: Topic| after.announced(p, t) <==> after.reaches(t, p) by {
        assert(state.announced(p, t) <==> state.reaches(t, p));
    }
}

/// A withdrawn subscription keeps the index symmetric.
pub proof fn lemma_unsubscribed_symmetric(state: BroadcastView, peer: PeerId, topic: Topic)
    requires
        state.index_symmetric(),
        state.connected(peer),
    ensures
        state.unsubscribed(peer, topic).index_symmetric(),
{
    let after = state.unsubscribed(peer, topic);
    assert forall|p: PeerId, t: Topic| after.announced(p, t) <==> after.reaches(t, p) by {
        assert(state.announced(p, t) <==> state.reaches(t, p));
    }
}

/// Whatever a connection handler reports, the index stays symmetric.
pub proof fn lemma_handled_symmetric(state: BroadcastView, peer: PeerId, event: HandlerEvent)
    requires
        state.index_symmetric(),
        state.accepts(peer, event),
    ensures
        state.handled(peer, event).index_symmetric(),
{
    match event {
        HandlerEvent::Rx(Message::Subscribe(topic)) => lemma_subscribed_symmetric(state, peer, topic),
        HandlerEvent::Rx(Message::Unsubscribe(topic)) => lemma_unsubscribed_symmetric(
            state,
            peer,
            topic,
        ),
        HandlerEvent::Rx(Message::Broadcast(topic, payload)) => {
            let after = state.handled(peer, event);
            assert forall|p: PeerId, t: Topic| after.announced(p, t) <==> after.reaches(t, p) by {
                assert(state.announced(p, t) <==> state.reaches(t, p));
            }
        },
        HandlerEvent::Tx => {},
    }
}

/// After a peer has disconnected it is no key of the index and no topic
/// lists it.
pub proof fn lemma_disconnect_cleans_index(state: BroadcastView, peer: PeerId)
    ensures
        !state.without_peer(peer).connected(peer),
        forall|topic: Topic| !state.without_peer(peer).reaches(topic, peer),
{
}

/// Whatever the host reports of the connections, the index stays
/// symmetric.
pub proof fn lemma_swarm_event_keeps_symmetry(
    before: BroadcastView,
    after: BroadcastView,
    event: SwarmEvent,
)
    requires
        before.index_symmetric(),
        before.follows_swarm_event(after, event),
    ensures
        after.index_symmetric(),
{
    match event {
        SwarmEvent::ConnectionEstablished { peer_id, other_established } => {
            if other_established == 0 {
                lemma_with_peer_symmetric(before, peer_id);
                lemma_queue_keeps_symmetry(before.with_peer(peer_id), after);
            }
        },
        SwarmEvent::ConnectionClosed { peer_id, remaining_established } => {
            lemma_without_peer_symmetric(before, peer_id);
        },
        SwarmEvent::Other => {},
    }
}

/// Subscribing, unsubscribing and publishing keep the index symmetric.
pub proof fn lemma_local_calls_keep_symmetry(
    before: BroadcastView,
    after: BroadcastView,
    topic: Topic,
    payload: Arc<[u8]>,
)
    requires
        before.index_symmetric(),
        before.subscribes(after, topic) || before.unsubscribes(after, topic) || before.broadcasts(
            after,
            topic,
            payload,
        ),
    ensures
        after.index_symmetric(),
{
    lemma_queue_keeps_symmetry(before, after);
}

/// Taking an entry off the queue keeps the index symmetric.
pub proof fn lemma_drained_symmetric(state: BroadcastView)
    requires
        state.index_symmetric(),
    ensures
        state.drained().index_symmetric(),
{
    lemma_queue_keeps_symmetry(state, state.drained());
}

/// Who is connected changes with the connections: the first connection
/// to a peer enters it, the last one to close removes it, and no other
/// connection event changes the connected peers. The local subscriptions
/// stay as they are.
pub proof fn lemma_peers_follow_connections(
    before: BroadcastView,
    after: BroadcastView,
    event: SwarmEvent,
)
    requires
        before.follows_swarm_event(after, event),
    ensures
        after.subscriptions == before.subscriptions,
        after.peer_topics.dom() == (match event {
            SwarmEvent::ConnectionEstablished { peer_id, other_established } => {
                if other_established == 0 {
                    before.peer_topics.dom().insert(peer_id)
                } else {
                    before.peer_topics.dom()
                }
            },
            SwarmEvent::ConnectionClosed { peer_id, remaining_established } => {
                if remaining_established == 0 {
                    before.peer_topics.dom().remove(peer_id)
                } else {
                    before.peer_topics.dom()
                }
            },
            SwarmEvent::Other => before.peer_topics.dom(),
        }),
{
    match event {
        SwarmEvent::ConnectionEstablished { peer_id, other_established } => {
            if other_established == 0 {
                assert(before.with_peer(peer_id).peer_topics.dom()
                    =~= before.peer_topics.dom().insert(peer_id));
            }
        },
        SwarmEvent::ConnectionClosed { peer_id, remaining_established } => {},
        SwarmEvent::Other => {},
    }
}

/// What a connection handler reports changes neither who is connected
/// nor what this node subscribes to.
pub proof fn lemma_messages_keep_peers(state: BroadcastView, peer: PeerId, event: HandlerEvent)
    requires
        state.accepts(peer, event),
    ensures
        state.handled(peer, event).peer_topics.dom() == state.peer_topics.dom(),
        state.handled(peer, event).subscriptions == state.subscriptions,
{
    assert(state.handled(peer, event).peer_topics.dom() =~= state.peer_topics.dom());
}

/// A local call changes what this node subscribes to and what it queues,
/// never what it knows of its peers.
pub proof fn lemma_local_calls_keep_index(
    before: BroadcastView,
    after: BroadcastView,
    topic: Topic,
    payload: Arc<[u8]>,
)
    requires
        before.subscribes(after, topic) || before.unsubscribes(after, topic) || before.broadcasts(
            after,
            topic,
            payload,
        ),
    ensures
        after.peer_topics == before.peer_topics,
        after.topic_peers == before.topic_peers,
{
}

/// Index symmetry, spelled out: in a state with a symmetric index, a
/// connected peer lists a topic exactly when the topic lists the peer.
pub proof fn lemma_index_symmetry(state: BroadcastView, peer: PeerId, topic: Topic)
    requires
        state.index_symmetric(),
    ensures
        (state.peer_topics.contains_key(peer) && state.peer_topics[peer].contains(topic)) <==> (
        state.topic_peers.contains_key(topic) && state.topic_peers[topic].contains(peer)),
{
    assert(state.announced(peer, topic) <==> state.reaches(topic, peer));
}

/// A fan-out appends to the queue and changes nothing else: the old
/// entries stay in front, one entry is added for each target, every
/// added entry notifies a target with the message, and no target is
/// notified twice.
pub proof fn lemma_fan_out(
    before: BroadcastView,
    after: BroadcastView,
    targets: Set<PeerId>,
    message: Message,
)
    requires
        before.fans_out(after, targets, message),
    ensures
        after.config == before.config,
        after.subscriptions == before.subscriptions,
        after.peer_topics == before.peer_topics,
        after.topic_peers == before.topic_peers,
        targets.finite(),
        after.events.len() == before.events.len() + targets.len(),
        after.events.take(before.events.len() as int) == before.events,
        forall|i: int|
            before.events.len() <= i < after.events.len() ==> (#[trigger] after.events[i]
                matches OutboundEvent::NotifyPeer { peer_id, message: sent } && targets.contains(
                peer_id,
            ) && sent == message),
        forall|peer: PeerId| #[trigger]
            targets.contains(peer) ==> exists|i: int|
                before.events.len() <= i < after.events.len() && #[trigger] after.events[i] == (
                OutboundEvent::NotifyPeer { peer_id: peer, message }),
        forall|i: int, j: int|
            before.events.len() <= i < j < after.events.len() ==> #[trigger] after.events[i]
                != #[trigger] after.events[j],
{
    let order = choose|order: Seq<PeerId>|
        enumerates(order, targets) && after == (BroadcastView {
            events: before.events + #[trigger] notify_each(order, message),
            ..before
        });
    let added = notify_each(order, message);
    let start = before.events.len() as int;
    order.unique_seq_to_set();
    assert(after.events.take(start) =~= before.events);
    assert forall|i: int| start <= i < after.events.len() implies (#[trigger] after.events[i]
        matches OutboundEvent::NotifyPeer { peer_id, message: sent } && targets.contains(peer_id)
        && sent == message) by {
        assert(after.events[i] == added[i - start]);
        assert(order.to_set().contains(order[i - start]));
    }
    assert forall|peer: PeerId| #[trigger] targets.contains(peer) implies exists|i: int|
        start <= i < after.events.len() && #[trigger] after.events[i] == (
        OutboundEvent::NotifyPeer { peer_id: peer, message }) by {
        assert(order.to_set().contains(peer));
        let k = choose|k: int| 0 <= k < order.len() && order[k] == peer;
        assert(after.events[start + k] == added[k]);
    }
    assert forall|i: int, j: int| start <= i < j < after.events.len() implies #[trigger]
        after.events[i] != #[trigger] after.events[j] by {
        assert(after.events[i] == added[i - start]);
        assert(after.events[j] == added[j - start]);
        assert(order[i - start] != order[j - start]);
    }
}

/// Subscribing twice in a row: the second call leaves the local
/// subscriptions as the first left them, and each of the two calls
/// queues one notification for each connected peer.
pub proof fn lemma_subscribe_twice(
    start: BroadcastView,
    once: BroadcastView,
    twice: BroadcastView,
    topic: Topic,
)
    requires
        start.subscribes(once, topic),
        once.subscribes(twice, topic),
    ensures
        once.subscriptions == start.subscriptions.insert(topic),
        twice.subscriptions == once.subscriptions,
        twice.peer_topics == start.peer_topics,
        twice.topic_peers == start.topic_peers,
        once.events.len() == start.events.len() + start.peer_topics.dom().len(),
        twice.events.len() == once.events.len() + start.peer_topics.dom().len(),
{
    lemma_fan_out(
        start.with_subscription(topic),
        once,
        start.peer_topics.dom(),
        Message::Subscribe(topic),
    );
    lemma_fan_out(
        once.with_subscription(topic),
        twice,
        once.peer_topics.dom(),
        Message::Subscribe(topic),
    );
    assert(once.subscriptions.insert(topic) =~= once.subscriptions);
}

/// Broadcast fan-out: publishing queues exactly one notification for each
/// peer recorded as subscribed to the topic when the call is made, each
/// with the topic and the payload that were published, and touches
/// neither the local subscriptions nor the index.
pub proof fn lemma_broadcast_fan_out(
    before: BroadcastView,
    after: BroadcastView,
    topic: Topic,
    payload: Arc<[u8]>,
)
    requires
        before.broadcasts(after, topic, payload),
    ensures
        after.subscriptions == before.subscriptions,
        after.peer_topics == before.peer_topics,
        after.topic_peers == before.topic_peers,
        after.events.len() == before.events.len() + before.subscribers(topic).len(),
        after.events.take(before.events.len() as int) == before.events,
        forall|i: int|
            before.events.len() <= i < after.events.len() ==> (#[trigger] after.events[i]
                matches OutboundEvent::NotifyPeer { peer_id, message } && before.subscribers(
                topic,
            ).contains(peer_id) && message == Message::Broadcast(topic, payload)),
        forall|peer: PeerId| #[trigger]
            before.subscribers(topic).contains(peer) ==> exists|i: int|
                before.events.len() <= i < after.events.len() && #[trigger] after.events[i] == (
                OutboundEvent::NotifyPeer {
                    peer_id: peer,
                    message: Message::Broadcast(topic, payload),
                }),
        forall|i: int, j: int|
            before.events.len() <= i < j < after.events.len() ==> #[trigger] after.events[i]
                != #[trigger] after.events[j],
{
    lemma_fan_out(before, after, before.subscribers(topic), Message::Broadcast(topic, payload));
}

/// No relay: a payload received from a peer is reported to the
/// application and sent on to nobody. The queue grows by that one report,
/// and nothing else changes.
pub proof fn lemma_received_is_not_relayed(
    state: BroadcastView,
    peer: PeerId,
    topic: Topic,
    payload: Arc<[u8]>,
)
    ensures
        state.handled(peer, HandlerEvent::Rx(Message::Broadcast(topic, payload))) == (
        BroadcastView {
            events: state.events.push(
                OutboundEvent::Emit(BroadcastEvent::Received(peer, topic, payload)),
            ),
            ..state
        }),
        forall|i: int|
            state.events.len() <= i < state.handled(
                peer,
                HandlerEvent::Rx(Message::Broadcast(topic, payload)),
            ).events.len() ==> !(#[trigger] state.handled(
                peer,
                HandlerEvent::Rx(Message::Broadcast(topic, payload)),
            ).events[i] is NotifyPeer),
{
}

} // verus!
