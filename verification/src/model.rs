//! The mathematical model of a node: its state as sets, maps and a
//! sequence, and what each operation does to it.

use crate::event::{BroadcastEvent, HandlerEvent, OutboundEvent, PeerId, SwarmEvent};
use crate::protocol::{BroadcastConfig, Message, Topic};
use std::sync::Arc;
use vstd::prelude::*;

verus! {

/// `order` lists every element of `items` exactly once.
pub open spec fn enumerates<T>(order: Seq<T>, items: Set<T>) -> bool {
    order.no_duplicates() && order.to_set() == items
}

/// One notification carrying `message` for each peer of `peers`, in order.
pub open spec fn notify_each(peers: Seq<PeerId>, message: Message) -> Seq<OutboundEvent> {
    Seq::new(peers.len(), |i: int| OutboundEvent::NotifyPeer { peer_id: peers[i], message })
}

/// One notification to `peer` for each topic of `topics`, in order, that
/// announces a subscription to it.
pub open spec fn announce_each(peer: PeerId, topics: Seq<Topic>) -> Seq<OutboundEvent> {
    Seq::new(
        topics.len(),
        |i: int| OutboundEvent::NotifyPeer { peer_id: peer, message: Message::Subscribe(topics[i]) },
    )
}

/// The state of a node.
pub struct BroadcastView {
    /// The configuration the node was made with.
    pub config: BroadcastConfig,
    /// The topics this node is interested in.
    pub subscriptions: Set<Topic>,
    /// For each connected peer, the topics it announced.
    pub peer_topics: Map<PeerId, Set<Topic>>,
    /// For each topic, the connected peers that announced it.
    pub topic_peers: Map<Topic, Set<PeerId>>,
    /// The outbound queue, oldest entry first.
    pub events: Seq<OutboundEvent>,
}

impl BroadcastView {
    /// The state of a fresh node.
    pub open spec fn empty(config: BroadcastConfig) -> BroadcastView {
        BroadcastView {
            config,
            subscriptions: Set::empty(),
            peer_topics: Map::empty(),
            topic_peers: Map::empty(),
            events: Seq::empty(),
        }
    }

    /// `peer` is connected.
    pub open spec fn connected(self, peer: PeerId) -> bool {
        self.peer_topics.contains_key(peer)
    }

    /// `peer` is connected and recorded as subscribed to `topic`.
    pub open spec fn announced(self, peer: PeerId, topic: Topic) -> bool {
        self.peer_topics.contains_key(peer) && self.peer_topics[peer].contains(topic)
    }

    /// `topic` lists `peer` as a subscriber.
    pub open spec fn reaches(self, topic: Topic, peer: PeerId) -> bool {
        self.topic_peers.contains_key(topic) && self.topic_peers[topic].contains(peer)
    }

    /// The peers recorded as subscribed to `topic`.
    pub open spec fn subscribers(self, topic: Topic) -> Set<PeerId> {
        if self.topic_peers.contains_key(topic) {
            self.topic_peers[topic]
        } else {
            Set::empty()
        }
    }

    /// The two maps of the index say the same: a peer lists a topic exactly
    /// when the topic lists the peer.
    pub open spec fn index_symmetric(self) -> bool {
        forall|peer: PeerId, topic: Topic|
            #![trigger self.announced(peer, topic)]
            #![trigger self.reaches(topic, peer)]
            self.announced(peer, topic) <==> self.reaches(topic, peer)
    }

    /// The state with `event` appended to the queue.
    pub open spec fn enqueue(self, event: OutboundEvent) -> BroadcastView {
        BroadcastView { events: self.events.push(event), ..self }
    }

    /// The state after a local subscription to `topic`, but for the queue.
    pub open spec fn with_subscription(self, topic: Topic) -> BroadcastView {
        BroadcastView { subscriptions: self.subscriptions.insert(topic), ..self }
    }

    /// The state after a local unsubscription from `topic`, but for the queue.
    pub open spec fn without_subscription(self, topic: Topic) -> BroadcastView {
        BroadcastView { subscriptions: self.subscriptions.remove(topic), ..self }
    }

    /// `after` is `self` with one notification carrying `message` appended
    /// for each peer of `targets`, in some order.
    pub open spec fn fans_out(self, after: BroadcastView, targets: Set<PeerId>, message: Message) -> bool {
        exists|order: Seq<PeerId>|
            enumerates(order, targets) && after == (BroadcastView {
                events: self.events + #[trigger] notify_each(order, message),
                ..self
            })
    }

    /// `after` is a state that follows `self` when this node subscribes
    /// to `topic`: the topic is among the local subscriptions, and every
    /// connected peer is told.
    pub open spec fn subscribes(self, after: BroadcastView, topic: Topic) -> bool {
        self.with_subscription(topic).fans_out(
            after,
            self.peer_topics.dom(),
            Message::Subscribe(topic),
        )
    }

    /// `after` is a state that follows `self` when this node unsubscribes
    /// from `topic`: the topic is not among the local subscriptions, and
    /// the peers recorded as subscribed to it are told.
    pub open spec fn unsubscribes(self, after: BroadcastView, topic: Topic) -> bool {
        self.without_subscription(topic).fans_out(
            after,
            self.subscribers(topic),
            Message::Unsubscribe(topic),
        )
    }

    /// `after` is a state that follows `self` when this node publishes
    /// `payload` on `topic`: the peers recorded as subscribed to it are
    /// sent the payload.
    pub open spec fn broadcasts(self, after: BroadcastView, topic: Topic, payload: Arc<[u8]>) -> bool {
        self.fans_out(after, self.subscribers(topic), Message::Broadcast(topic, payload))
    }

    /// `after` is `self` with one notification to `peer` appended for each
    /// topic of the local subscriptions, in some order.
    pub open spec fn announces_to(self, after: BroadcastView, peer: PeerId) -> bool {
        exists|order: Seq<Topic>|
            enumerates(order, self.subscriptions) && after == (BroadcastView {
                events: self.events + #[trigger] announce_each(peer, order),
                ..self
            })
    }

    /// The state with `peer` connected: a peer that is new starts with no
    /// topics, one that is known keeps its own.
    pub open spec fn with_peer(self, peer: PeerId) -> BroadcastView {
        if self.peer_topics.contains_key(peer) {
            self
        } else {
            BroadcastView { peer_topics: self.peer_topics.insert(peer, Set::empty()), ..self }
        }
    }

    /// The state with `peer` gone from both maps of the index.
    pub open spec fn without_peer(self, peer: PeerId) -> BroadcastView {
        BroadcastView {
            peer_topics: self.peer_topics.remove(peer),
            topic_peers: self.topic_peers.map_values(|peers: Set<PeerId>| peers.remove(peer)),
            ..self
        }
    }

    /// The state after `peer` announced `topic`.
    pub open spec fn subscribed(self, peer: PeerId, topic: Topic) -> BroadcastView
        recommends
            self.connected(peer),
    {
        BroadcastView {
            peer_topics: self.peer_topics.insert(peer, self.peer_topics[peer].insert(topic)),
            topic_peers: self.topic_peers.insert(topic, self.subscribers(topic).insert(peer)),
            events: self.events.push(OutboundEvent::Emit(BroadcastEvent::Subscribed(peer, topic))),
            ..self
        }
    }

    /// The state after `peer` withdrew from `topic`.
    pub open spec fn unsubscribed(self, peer: PeerId, topic: Topic) -> BroadcastView
        recommends
            self.connected(peer),
    {
        BroadcastView {
            peer_topics: self.peer_topics.insert(peer, self.peer_topics[peer].remove(topic)),
            topic_peers: if self.topic_peers.contains_key(topic) {
                self.topic_peers.insert(topic, self.topic_peers[topic].remove(peer))
            } else {
                self.topic_peers
            },
            events: self.events.push(OutboundEvent::Emit(BroadcastEvent::Unsubscribed(peer, topic))),
            ..self
        }
    }

    /// The state after `peer` published `payload` on `topic`.
    pub open spec fn received(self, peer: PeerId, topic: Topic, payload: Arc<[u8]>) -> BroadcastView {
        self.enqueue(OutboundEvent::Emit(BroadcastEvent::Received(peer, topic, payload)))
    }

    /// A handler event from `peer` can be taken: a peer that announces or
    /// withdraws a subscription is connected.
    pub open spec fn accepts(self, peer: PeerId, event: HandlerEvent) -> bool {
        match event {
            HandlerEvent::Rx(Message::Subscribe(_)) => self.connected(peer),
            HandlerEvent::Rx(Message::Unsubscribe(_)) => self.connected(peer),
            _ => true,
        }
    }

    /// The state after a handler event from `peer`.
    pub open spec fn handled(self, peer: PeerId, event: HandlerEvent) -> BroadcastView
        recommends
            self.accepts(peer, event),
    {
        match event {
            HandlerEvent::Rx(Message::Subscribe(topic)) => self.subscribed(peer, topic),
            HandlerEvent::Rx(Message::Broadcast(topic, payload)) => self.received(peer, topic, payload),
            HandlerEvent::Rx(Message::Unsubscribe(topic)) => self.unsubscribed(peer, topic),
            HandlerEvent::Tx => self,
        }
    }

    /// `after` is a state that follows `self` when the first connection to
    /// `peer` has opened.
    pub open spec fn connects(self, after: BroadcastView, peer: PeerId) -> bool {
        self.with_peer(peer).announces_to(after, peer)
    }

    /// `after` is a state that follows `self` on a connection event: the
    /// first connection to open connects the peer, the last one to close
    /// disconnects it, and nothing else changes anything.
    pub open spec fn follows_swarm_event(self, after: BroadcastView, event: SwarmEvent) -> bool {
        match event {
            SwarmEvent::ConnectionEstablished { peer_id, other_established } => {
                if other_established == 0 {
                    self.connects(after, peer_id)
                } else {
                    after == self
                }
            },
            SwarmEvent::ConnectionClosed { peer_id, remaining_established } => {
                if remaining_established == 0 {
                    after == self.without_peer(peer_id)
                } else {
                    after == self
                }
            },
            SwarmEvent::Other => after == self,
        }
    }

    /// The state after the oldest entry of the queue was taken.
    pub open spec fn drained(self) -> BroadcastView {
        if self.events.len() > 0 {
            BroadcastView { events: self.events.drop_first(), ..self }
        } else {
            self
        }
    }
}

} // verus!
