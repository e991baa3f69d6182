//! The node: the subscription index, the outbound queue and the
//! operations that the application and the host drive it with.

use crate::event::{BroadcastEvent, HandlerEvent, OutboundEvent, PeerId, SwarmEvent};
use crate::index::{map_get, map_insert, map_keys, map_remove, set_insert, set_iter, set_remove};
use crate::laws::{
    lemma_disconnect_cleans_index, lemma_handled_symmetric, lemma_queue_keeps_symmetry,
    lemma_with_peer_symmetric, lemma_without_peer_symmetric,
};
use crate::model::{announce_each, enumerates, notify_each, BroadcastView};
use crate::protocol::{BroadcastConfig, Message, Topic};
use fnv::{FnvHashMap, FnvHashSet};
use std::collections::VecDeque;
use std::sync::Arc;
use vstd::prelude::*;
use vstd::std_specs::iter::IteratorSpec;

verus! {

/// The topics whose identifiers are in `ids`.
spec fn topic_set(ids: Set<u64>) -> Set<Topic> {
    Set::new(|topic: Topic| ids.contains(topic.0))
}

/// The peers whose identifiers are in `ids`.
spec fn peer_set(ids: Set<u64>) -> Set<PeerId> {
    Set::new(|peer: PeerId| ids.contains(peer.0))
}

/// The topics with the identifiers `ids`, in order.
spec fn topics_of(ids: Seq<u64>) -> Seq<Topic> {
    Seq::new(ids.len(), |i: int| Topic(ids[i]))
}

/// The peers with the identifiers `ids`, in order.
spec fn peers_of(ids: Seq<u64>) -> Seq<PeerId> {
    Seq::new(ids.len(), |i: int| PeerId(ids[i]))
}

/// Identifiers that list a set once each name topics that do so too.
proof fn lemma_topics_enumerate(ids: Seq<u64>, set: Set<u64>)
    requires
        enumerates(ids, set),
    ensures
        enumerates(topics_of(ids), topic_set(set)),
{
    let topics = topics_of(ids);
    assert forall|topic: Topic| topics.to_set().contains(topic) <==> topic_set(set).contains(
        topic,
    ) by {
        if topic_set(set).contains(topic) {
            assert(ids.to_set().contains(topic.0));
            let i = choose|i: int| 0 <= i < ids.len() && ids[i] == topic.0;
            assert(topics[i] == topic);
        }
    }
    assert(topics.to_set() =~= topic_set(set));
}

/// Identifiers that list a set once each name peers that do so too.
proof fn lemma_peers_enumerate(ids: Seq<u64>, set: Set<u64>)
    requires
        enumerates(ids, set),
    ensures
        enumerates(peers_of(ids), peer_set(set)),
{
    let peers = peers_of(ids);
    assert forall|peer: PeerId| peers.to_set().contains(peer) <==> peer_set(set).contains(peer) by {
        if peer_set(set).contains(peer) {
            assert(ids.to_set().contains(peer.0));
            let i = choose|i: int| 0 <= i < ids.len() && ids[i] == peer.0;
            assert(peers[i] == peer);
        }
    }
    assert(peers.to_set() =~= peer_set(set));
}

/// The topics whose identifiers are in `ids`, each once.
fn list_topics(ids: &FnvHashSet<u64>) -> (topics: Vec<Topic>)
    ensures
        enumerates(topics@, topic_set(ids@)),
{
    let mut topics: Vec<Topic> = Vec::new();
    for id in it: set_iter(ids)
        invariant
            topics@.len() == it.index(),
            forall|i: int| 0 <= i < topics@.len() ==> topics@[i] == Topic(*it.seq()[i]),
    {
        topics.push(Topic(*id));
    }
    proof {
        let all = set_iter(ids).remaining().unref();
        assert(topics@ =~= topics_of(all));
        lemma_topics_enumerate(all, ids@);
    }
    topics
}

/// The peers whose identifiers are in `ids`, each once.
fn list_peers(ids: &FnvHashSet<u64>) -> (peers: Vec<PeerId>)
    ensures
        enumerates(peers@, peer_set(ids@)),
{
    let mut peers: Vec<PeerId> = Vec::new();
    for id in it: set_iter(ids)
        invariant
            peers@.len() == it.index(),
            forall|i: int| 0 <= i < peers@.len() ==> peers@[i] == PeerId(*it.seq()[i]),
    {
        peers.push(PeerId(*id));
    }
    proof {
        let all = set_iter(ids).remaining().unref();
        assert(peers@ =~= peers_of(all));
        lemma_peers_enumerate(all, ids@);
    }
    peers
}

/// Queues one notification carrying `message` for each peer whose
/// identifier is in `ids`.
fn notify_set(events: &mut VecDeque<OutboundEvent>, ids: &FnvHashSet<u64>, message: &Message)
    ensures
        exists|order: Seq<PeerId>|
            enumerates(order, peer_set(ids@)) && final(events)@ == old(events)@
                + #[trigger] notify_each(order, *message),
{
    let ghost mut order: Seq<PeerId> = Seq::empty();
    assert(events@ =~= old(events)@ + notify_each(order, *message));
    for id in it: set_iter(ids)
        invariant
            order.len() == it.index(),
            forall|i: int| 0 <= i < order.len() ==> order[i] == PeerId(*it.seq()[i]),
            events@ == old(events)@ + notify_each(order, *message),
    {
        events.push_back(OutboundEvent::NotifyPeer { peer_id: PeerId(*id), message: message.clone() });
        proof {
            order = order.push(PeerId(*id));
            assert(events@ =~= old(events)@ + notify_each(order, *message));
        }
    }
    proof {
        let all = set_iter(ids).remaining().unref();
        assert(order =~= peers_of(all));
        lemma_peers_enumerate(all, ids@);
    }
}

/// Queues one notification carrying `message` for each peer whose
/// identifier is a key of `peers`.
fn notify_keys(
    events: &mut VecDeque<OutboundEvent>,
    peers: &FnvHashMap<u64, FnvHashSet<u64>>,
    message: &Message,
)
    ensures
        exists|order: Seq<PeerId>|
            enumerates(order, peer_set(peers@.dom())) && final(events)@ == old(events)@
                + #[trigger] notify_each(order, *message),
{
    let ghost mut order: Seq<PeerId> = Seq::empty();
    assert(events@ =~= old(events)@ + notify_each(order, *message));
    for id in it: map_keys(peers)
        invariant
            order.len() == it.index(),
            forall|i: int| 0 <= i < order.len() ==> order[i] == PeerId(*it.seq()[i]),
            events@ == old(events)@ + notify_each(order, *message),
    {
        events.push_back(OutboundEvent::NotifyPeer { peer_id: PeerId(*id), message: message.clone() });
        proof {
            order = order.push(PeerId(*id));
            assert(events@ =~= old(events)@ + notify_each(order, *message));
        }
    }
    proof {
        let all = map_keys(peers).remaining().unref();
        assert(order =~= peers_of(all));
        lemma_peers_enumerate(all, peers@.dom());
    }
}

/// Queues one notification to `peer` for each topic whose identifier is
/// in `ids`, announcing a subscription to it.
fn announce_set(events: &mut VecDeque<OutboundEvent>, peer: PeerId, ids: &FnvHashSet<u64>)
    ensures
        exists|order: Seq<Topic>|
            enumerates(order, topic_set(ids@)) && final(events)@ == old(events)@
                + #[trigger] announce_each(peer, order),
{
    let ghost mut order: Seq<Topic> = Seq::empty();
    assert(events@ =~= old(events)@ + announce_each(peer, order));
    for id in it: set_iter(ids)
        invariant
            order.len() == it.index(),
            forall|i: int| 0 <= i < order.len() ==> order[i] == Topic(*it.seq()[i]),
            events@ == old(events)@ + announce_each(peer, order),
    {
        events.push_back(
            OutboundEvent::NotifyPeer { peer_id: peer, message: Message::Subscribe(Topic(*id)) },
        );
        proof {
            order = order.push(Topic(*id));
            assert(events@ =~= old(events)@ + announce_each(peer, order));
        }
    }
    proof {
        let all = set_iter(ids).remaining().unref();
        assert(order =~= topics_of(all));
        lemma_topics_enumerate(all, ids@);
    }
}

/// A node of the flooding protocol.
pub struct Broadcast {
    config: BroadcastConfig,
    subscriptions: FnvHashSet<u64>,
    peers: FnvHashMap<u64, FnvHashSet<u64>>,
    topics: FnvHashMap<u64, FnvHashSet<u64>>,
    events: VecDeque<OutboundEvent>,
}

impl View for Broadcast {
    type V = BroadcastView;

    closed spec fn view(&self) -> BroadcastView {
        BroadcastView {
            config: self.config,
            subscriptions: topic_set(self.subscriptions@),
            peer_topics: Map::new(
                |peer: PeerId| self.peers@.contains_key(peer.0),
                |peer: PeerId| topic_set(self.peers@[peer.0]@),
            ),
            topic_peers: Map::new(
                |topic: Topic| self.topics@.contains_key(topic.0),
                |topic: Topic| peer_set(self.topics@[topic.0]@),
            ),
            events: self.events@,
        }
    }
}

impl Broadcast {
    /// The node is well formed: its index is symmetric.
    pub open spec fn wf(&self) -> bool {
        self@.index_symmetric()
    }

    /// A node with no subscriptions, no peers and an empty queue.
    pub fn new(config: BroadcastConfig) -> (node: Broadcast)
        ensures
            node.wf(),
            node@ == BroadcastView::empty(config),
    {
        let node = Broadcast {
            config,
            subscriptions: FnvHashSet::default(),
            peers: FnvHashMap::default(),
            topics: FnvHashMap::default(),
            events: VecDeque::new(),
        };
        assert(node@.subscriptions =~= Set::empty());
        assert(node@.peer_topics =~= Map::empty());
        assert(node@.topic_peers =~= Map::empty());
        node
    }

    /// The configuration the node was made with.
    pub fn config(&self) -> (config: BroadcastConfig)
        ensures
            config == self@.config,
    {
        self.config
    }

    /// The topics this node is subscribed to, each once.
    pub fn subscribed(&self) -> (topics: Vec<Topic>)
        ensures
            enumerates(topics@, self@.subscriptions),
    {
        list_topics(&self.subscriptions)
    }

    /// The connected peers recorded as subscribed to `topic`, each once;
    /// `None` where the index has no entry for the topic.
    pub fn peers(&self, topic: &Topic) -> (peers: Option<Vec<PeerId>>)
        ensures
            match peers {
                Some(list) => self@.topic_peers.contains_key(*topic) && enumerates(
                    list@,
                    self@.topic_peers[*topic],
                ),
                None => !self@.topic_peers.contains_key(*topic),
            },
    {
        match map_get(&self.topics, topic.0) {
            Some(set) => Some(list_peers(set)),
            None => None,
        }
    }

    /// The topics that `peer` has announced, each once; `None` where the
    /// peer is not connected.
    pub fn topics(&self, peer: &PeerId) -> (topics: Option<Vec<Topic>>)
        ensures
            match topics {
                Some(list) => self@.peer_topics.contains_key(*peer) && enumerates(
                    list@,
                    self@.peer_topics[*peer],
                ),
                None => !self@.peer_topics.contains_key(*peer),
            },
    {
        match map_get(&self.peers, peer.0) {
            Some(set) => Some(list_topics(set)),
            None => None,
        }
    }

    /// Queues one notification carrying `message` for each peer recorded as
    /// subscribed to `topic`.
    fn notify_subscribers(&mut self, topic: Topic, message: &Message)
        ensures
            old(self)@.fans_out(final(self)@, old(self)@.subscribers(topic), *message),
    {
        if let Some(peers) = map_get(&self.topics, topic.0) {
            notify_set(&mut self.events, peers, message);
        }
        proof {
            if old(self).topics@.contains_key(topic.0) {
                let order = choose|order: Seq<PeerId>|
                    enumerates(order, peer_set(old(self).topics@[topic.0]@)) && self.events@ == old(
                        self,
                    ).events@ + #[trigger] notify_each(order, *message);
                assert(self@ == (BroadcastView {
                    events: old(self)@.events + notify_each(order, *message),
                    ..old(self)@
                }));
            } else {
                let order = Seq::<PeerId>::empty();
                assert(order.to_set() =~= Set::<PeerId>::empty());
                assert(self@.events =~= old(self)@.events + notify_each(order, *message));
                assert(self@ == (BroadcastView {
                    events: old(self)@.events + notify_each(order, *message),
                    ..old(self)@
                }));
            }
        }
    }

    /// Records this node's interest in `topic` and tells every connected
    /// peer, whether or not it was told before.
    pub fn subscribe(&mut self, topic: Topic)
        requires
            old(self).wf(),
        ensures
            final(self).wf(),
            old(self)@.subscribes(final(self)@, topic),
    {
        set_insert(&mut self.subscriptions, topic.0);
        assert(self@ == old(self)@.with_subscription(topic)) by {
            assert(self@.subscriptions =~= old(self)@.subscriptions.insert(topic));
        }
        let message = Message::Subscribe(topic);
        let ghost subscribed = self@;
        notify_keys(&mut self.events, &self.peers, &message);
        proof {
            let order = choose|order: Seq<PeerId>|
                enumerates(order, peer_set(self.peers@.dom())) && self.events@ == subscribed.events
                    + #[trigger] notify_each(order, message);
            assert(peer_set(self.peers@.dom()) =~= old(self)@.peer_topics.dom());
            assert(self@ == (BroadcastView {
                events: subscribed.events + notify_each(order, message),
                ..subscribed
            }));
            lemma_queue_keeps_symmetry(old(self)@, self@);
        }
    }

    /// Withdraws this node's interest in `topic` and tells the peers that
    /// are recorded as subscribed to it.
    pub fn unsubscribe(&mut self, topic: &Topic)
        requires
            old(self).wf(),
        ensures
            final(self).wf(),
            old(self)@.unsubscribes(final(self)@, *topic),
    {
        set_remove(&mut self.subscriptions, topic.0);
        assert(self@ == old(self)@.without_subscription(*topic)) by {
            assert(self@.subscriptions =~= old(self)@.subscriptions.remove(*topic));
        }
        let message = Message::Unsubscribe(*topic);
        self.notify_subscribers(*topic, &message);
        proof {
            lemma_queue_keeps_symmetry(old(self)@, self@);
        }
    }

    /// Publishes `msg` on `topic`: one notification for each peer recorded
    /// as subscribed to it, all sharing the one payload.
    pub fn broadcast(&mut self, topic: &Topic, msg: Arc<[u8]>)
        requires
            old(self).wf(),
        ensures
            final(self).wf(),
            old(self)@.broadcasts(final(self)@, *topic, msg),
    {
        let message = Message::Broadcast(*topic, msg);
        self.notify_subscribers(*topic, &message);
        proof {
            lemma_queue_keeps_symmetry(old(self)@, self@);
        }
    }

    /// The first connection to `peer` has opened: the peer is entered in
    /// the index, unless it is there already, and is told of every topic
    /// this node is interested in.
    pub fn inject_connected(&mut self, peer: &PeerId)
        requires
            old(self).wf(),
        ensures
            final(self).wf(),
            old(self)@.connects(final(self)@, *peer),
    {
        if map_get(&self.peers, peer.0).is_none() {
            map_insert(&mut self.peers, peer.0, FnvHashSet::default());
        }
        proof {
            let entered = old(self)@.with_peer(*peer);
            assert(self@.subscriptions == entered.subscriptions);
            assert(self@.peer_topics =~~= entered.peer_topics);
            assert(self@.topic_peers == entered.topic_peers);
            lemma_with_peer_symmetric(old(self)@, *peer);
        }
        let ghost entered = self@;
        announce_set(&mut self.events, *peer, &self.subscriptions);
        proof {
            let order = choose|order: Seq<Topic>|
                enumerates(order, topic_set(self.subscriptions@)) && self.events@ == entered.events
                    + #[trigger] announce_each(*peer, order);
            assert(self@ == (BroadcastView {
                events: entered.events + announce_each(*peer, order),
                ..entered
            }));
            lemma_queue_keeps_symmetry(entered, self@);
        }
    }

    /// The last connection to `peer` has closed: the peer leaves the index,
    /// and so does every record of it under a topic. Nothing is queued.
    pub fn inject_disconnected(&mut self, peer: &PeerId)
        requires
            old(self).wf(),
        ensures
            final(self).wf(),
            final(self)@ == old(self)@.without_peer(*peer),
            !final(self)@.connected(*peer),
            forall|topic: Topic| !final(self)@.reaches(topic, *peer),
    {
        if let Some(topics) = map_remove(&mut self.peers, peer.0) {
            let ghost ids = set_iter(&topics).remaining().unref();
            for id in it: set_iter(&topics)
                invariant
                    it.seq().unref() == ids,
                    self.config == old(self).config,
                    self.subscriptions == old(self).subscriptions,
                    self.peers@ == old(self).peers@.remove(peer.0),
                    self.events == old(self).events,
                    self.topics@.dom() == old(self).topics@.dom(),
                    forall|k: u64| #[trigger]
                        self.topics@.contains_key(k) ==> self.topics@[k]@ == (if ids.take(
                            it.index() as int,
                        ).contains(k) {
                            old(self).topics@[k]@.remove(peer.0)
                        } else {
                            old(self).topics@[k]@
                        }),
            {
                let ghost before = self.topics@;
                let ghost done = ids.take(it.index() as int);
                let ghost now = ids.take(it.index() + 1);
                if let Some(mut peers) = map_remove(&mut self.topics, *id) {
                    set_remove(&mut peers, peer.0);
                    map_insert(&mut self.topics, *id, peers);
                }
                proof {
                    assert(ids[it.index() as int] == *id);
                    assert(self.topics@.dom() =~= before.dom());
                    assert(now =~= done.push(*id));
                    assert forall|k: u64| #[trigger]
                        self.topics@.contains_key(k) implies self.topics@[k]@ == (if now.contains(
                        k,
                    ) {
                        old(self).topics@[k]@.remove(peer.0)
                    } else {
                        old(self).topics@[k]@
                    }) by {
                        assert(before.contains_key(k));
                        if k == *id {
                            assert(now[it.index() as int] == *id);
                            assert(old(self).topics@[k]@.remove(peer.0).remove(peer.0)
                                =~= old(self).topics@[k]@.remove(peer.0));
                        } else {
                            if done.contains(k) {
                                let j = choose|j: int| 0 <= j < done.len() && done[j] == k;
                                assert(now[j] == k);
                            }
                            if now.contains(k) {
                                let j = choose|j: int| 0 <= j < now.len() && now[j] == k;
                                assert(done[j] == k);
                            }
                        }
                    }
                }
            }
            proof {
                assert(ids.take(ids.len() as int) =~= ids);
                let gone = old(self)@.without_peer(*peer);
                assert(self@.peer_topics =~~= gone.peer_topics);
                assert forall|topic: Topic| #[trigger]
                    self@.topic_peers.contains_key(topic) implies self@.topic_peers[topic]
                    =~= gone.topic_peers[topic] by {
                    if !ids.contains(topic.0) {
                        assert(!ids.to_set().contains(topic.0));
                        assert(!old(self)@.announced(*peer, topic));
                        assert(!old(self)@.reaches(topic, *peer));
                    }
                }
                assert(self@.topic_peers =~~= gone.topic_peers);
            }
        } else {
            proof {
                let gone = old(self)@.without_peer(*peer);
                assert(self@.peer_topics =~~= gone.peer_topics);
                assert forall|topic: Topic| #[trigger]
                    self@.topic_peers.contains_key(topic) implies self@.topic_peers[topic]
                    =~= gone.topic_peers[topic] by {
                    assert(!old(self)@.announced(*peer, topic));
                    assert(!old(self)@.reaches(topic, *peer));
                }
                assert(self@.topic_peers =~~= gone.topic_peers);
            }
        }
        proof {
            lemma_without_peer_symmetric(old(self)@, *peer);
            lemma_disconnect_cleans_index(old(self)@, *peer);
        }
    }

    /// Takes a connection event from the host: the first connection to a
    /// peer connects it, the last one to close disconnects it, and every
    /// other event is passed over.
    pub fn on_swarm_event(&mut self, event: SwarmEvent)
        requires
            old(self).wf(),
        ensures
            final(self).wf(),
            old(self)@.follows_swarm_event(final(self)@, event),
    {
        match event {
            SwarmEvent::ConnectionEstablished { peer_id, other_established } => {
                if other_established == 0 {
                    self.inject_connected(&peer_id);
                }
            },
            SwarmEvent::ConnectionClosed { peer_id, remaining_established } => {
                if remaining_established == 0 {
                    self.inject_disconnected(&peer_id);
                }
            },
            SwarmEvent::Other => {},
        }
    }

    /// Takes one event from the connection handler of `peer`: a
    /// subscription or an unsubscription updates both maps of the index, a
    /// published payload changes nothing, and each of the three is
    /// reported to the application. That a message was sent is no news.
    pub fn on_connection_handler_event(&mut self, peer: PeerId, event: HandlerEvent)
        requires
            old(self).wf(),
            old(self)@.accepts(peer, event),
        ensures
            final(self).wf(),
            final(self)@ == old(self)@.handled(peer, event),
    {
        let emitted = match event {
            HandlerEvent::Rx(Message::Subscribe(topic)) => {
                let mut peers = match map_remove(&mut self.topics, topic.0) {
                    Some(peers) => peers,
                    None => FnvHashSet::default(),
                };
                set_insert(&mut peers, peer.0);
                map_insert(&mut self.topics, topic.0, peers);
                let mut topics = map_remove(&mut self.peers, peer.0).unwrap();
                set_insert(&mut topics, topic.0);
                map_insert(&mut self.peers, peer.0, topics);
                BroadcastEvent::Subscribed(peer, topic)
            },
            HandlerEvent::Rx(Message::Broadcast(topic, payload)) => BroadcastEvent::Received(
                peer,
                topic,
                payload,
            ),
            HandlerEvent::Rx(Message::Unsubscribe(topic)) => {
                let mut topics = map_remove(&mut self.peers, peer.0).unwrap();
                set_remove(&mut topics, topic.0);
                map_insert(&mut self.peers, peer.0, topics);
                if let Some(mut peers) = map_remove(&mut self.topics, topic.0) {
                    set_remove(&mut peers, peer.0);
                    map_insert(&mut self.topics, topic.0, peers);
                }
                BroadcastEvent::Unsubscribed(peer, topic)
            },
            HandlerEvent::Tx => {
                return ;
            },
        };
        self.events.push_back(OutboundEvent::Emit(emitted));
        proof {
            let after = old(self)@.handled(peer, event);
            lemma_handled_symmetric(old(self)@, peer, event);
            assert(self@.subscriptions =~= after.subscriptions);
            assert(self@.peer_topics =~~= after.peer_topics);
            assert(self@.topic_peers =~~= after.topic_peers);
        }
    }

    /// Takes the oldest entry off the outbound queue, if there is one.
    pub fn poll(&mut self) -> (next: Option<OutboundEvent>)
        requires
            old(self).wf(),
        ensures
            final(self).wf(),
            final(self)@ == old(self)@.drained(),
            next == (if old(self)@.events.len() > 0 {
                Some(old(self)@.events[0])
            } else {
                None
            }),
    {
        let next = self.events.pop_front();
        proof {
            assert(self@.events =~= old(self)@.drained().events);
            lemma_queue_keeps_symmetry(old(self)@, self@);
        }
        next
    }
}

impl Default for Broadcast {
    fn default() -> (node: Broadcast)
        ensures
            node.wf(),
            node@ == BroadcastView::empty(BroadcastConfig { max_buf_size: 4194304 }),
    {
        Broadcast::new(BroadcastConfig::default())
    }
}

} // verus!
