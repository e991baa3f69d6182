//! One node, driven step by step.

use libp2p_broadcast::{
    Broadcast, BroadcastConfig, BroadcastEvent, HandlerEvent, Message, OutboundEvent, PeerId,
    SwarmEvent, Topic,
};
use std::sync::Arc;

fn drain(node: &mut Broadcast) -> Vec<OutboundEvent> {
    let mut out = Vec::new();
    while let Some(event) = node.poll() {
        out.push(event);
    }
    out
}

fn sorted<T: Ord + Copy>(items: Vec<T>) -> Vec<T> {
    let mut items = items;
    items.sort();
    items
}

fn peer_ids(peers: Option<Vec<PeerId>>) -> Option<Vec<u64>> {
    peers.map(|list| sorted(list.iter().map(|peer| peer.0).collect()))
}

fn topic_ids(topics: Option<Vec<Topic>>) -> Option<Vec<u64>> {
    topics.map(|list| sorted(list.iter().map(|topic| topic.0).collect()))
}

fn targets(events: &[OutboundEvent]) -> Vec<u64> {
    let mut ids = Vec::new();
    for event in events {
        match event {
            OutboundEvent::NotifyPeer { peer_id, .. } => ids.push(peer_id.0),
            OutboundEvent::Emit(_) => panic!("an event for the application"),
        }
    }
    sorted(ids)
}

fn rx_subscribe(node: &mut Broadcast, peer: u64, topic: u64) {
    node.on_connection_handler_event(
        PeerId(peer),
        HandlerEvent::Rx(Message::Subscribe(Topic(topic))),
    );
}

fn rx_unsubscribe(node: &mut Broadcast, peer: u64, topic: u64) {
    node.on_connection_handler_event(
        PeerId(peer),
        HandlerEvent::Rx(Message::Unsubscribe(Topic(topic))),
    );
}

/// Every pair of the index, seen from the peers and seen from the topics.
fn assert_symmetric(node: &Broadcast, peers: &[u64], topics: &[u64]) {
    for &peer in peers {
        for &topic in topics {
            let forward = node
                .topics(&PeerId(peer))
                .map_or(false, |list| list.contains(&Topic(topic)));
            let backward = node
                .peers(&Topic(topic))
                .map_or(false, |list| list.contains(&PeerId(peer)));
            assert_eq!(forward, backward, "peer {} topic {}", peer, topic);
        }
    }
}

#[test]
fn new_node_is_empty() {
    let config = BroadcastConfig { max_buf_size: 99 };
    let mut node = Broadcast::new(config);
    assert_eq!(node.config(), config);
    assert!(node.subscribed().is_empty());
    assert_eq!(node.peers(&Topic(1)), None);
    assert_eq!(node.topics(&PeerId(1)), None);
    assert_eq!(node.poll(), None);
}

#[test]
fn default_node_has_the_default_config() {
    let mut node = Broadcast::default();
    assert_eq!(node.config(), BroadcastConfig::default());
    assert!(node.subscribed().is_empty());
    assert_eq!(node.poll(), None);
}

#[test]
fn subscribe_without_peers_queues_nothing() {
    let mut node = Broadcast::default();
    node.subscribe(Topic(5));
    assert_eq!(node.subscribed(), vec![Topic(5)]);
    assert_eq!(node.poll(), None);
}

#[test]
fn subscribe_notifies_every_connected_peer() {
    let mut node = Broadcast::default();
    node.inject_connected(&PeerId(1));
    node.inject_connected(&PeerId(2));
    node.inject_connected(&PeerId(3));
    node.subscribe(Topic(5));
    let events = drain(&mut node);
    assert_eq!(events.len(), 3);
    assert_eq!(targets(&events), vec![1, 2, 3]);
    for event in &events {
        match event {
            OutboundEvent::NotifyPeer { message, .. } => {
                assert_eq!(*message, Message::Subscribe(Topic(5)))
            }
            OutboundEvent::Emit(_) => panic!("an event for the application"),
        }
    }
}

#[test]
fn subscribing_twice_keeps_the_set_and_notifies_again() {
    let mut node = Broadcast::default();
    node.inject_connected(&PeerId(1));
    node.inject_connected(&PeerId(2));
    node.subscribe(Topic(5));
    let once = node.subscribed();
    let first = drain(&mut node);
    node.subscribe(Topic(5));
    let twice = node.subscribed();
    let second = drain(&mut node);
    assert_eq!(once, vec![Topic(5)]);
    assert_eq!(twice, once);
    assert_eq!(first.len(), 2);
    assert_eq!(second.len(), 2);
    assert_eq!(targets(&first), vec![1, 2]);
    assert_eq!(targets(&second), vec![1, 2]);
}

#[test]
fn unsubscribe_notifies_only_recorded_subscribers() {
    let mut node = Broadcast::default();
    node.inject_connected(&PeerId(1));
    node.inject_connected(&PeerId(2));
    node.subscribe(Topic(5));
    rx_subscribe(&mut node, 2, 5);
    drain(&mut node);
    node.unsubscribe(&Topic(5));
    assert!(node.subscribed().is_empty());
    assert_eq!(
        drain(&mut node),
        vec![OutboundEvent::NotifyPeer {
            peer_id: PeerId(2),
            message: Message::Unsubscribe(Topic(5)),
        }]
    );
}

#[test]
fn unsubscribe_of_an_unknown_topic_is_no_error() {
    let mut node = Broadcast::default();
    node.inject_connected(&PeerId(1));
    node.unsubscribe(&Topic(5));
    assert!(node.subscribed().is_empty());
    assert_eq!(node.poll(), None);
}

#[test]
fn unsubscribe_removes_only_that_topic() {
    let mut node = Broadcast::default();
    node.subscribe(Topic(5));
    node.subscribe(Topic(6));
    node.unsubscribe(&Topic(5));
    assert_eq!(node.subscribed(), vec![Topic(6)]);
}

#[test]
fn broadcast_on_an_unknown_topic_does_nothing() {
    let mut node = Broadcast::default();
    node.inject_connected(&PeerId(1));
    node.subscribe(Topic(5));
    drain(&mut node);
    node.broadcast(&Topic(5), Arc::new(*b"x"));
    assert_eq!(node.poll(), None);
    assert_eq!(node.subscribed(), vec![Topic(5)]);
    assert_eq!(node.topics(&PeerId(1)), Some(vec![]));
    assert_eq!(node.peers(&Topic(5)), None);
}

#[test]
fn broadcast_sends_one_notification_to_each_subscriber() {
    let mut node = Broadcast::default();
    for peer in 1..=4 {
        node.inject_connected(&PeerId(peer));
    }
    rx_subscribe(&mut node, 1, 5);
    rx_subscribe(&mut node, 3, 5);
    rx_subscribe(&mut node, 4, 6);
    drain(&mut node);
    let payload: Arc<[u8]> = Arc::new(*b"payload");
    node.broadcast(&Topic(5), payload.clone());
    let events = drain(&mut node);
    assert_eq!(events.len(), 2);
    assert_eq!(targets(&events), vec![1, 3]);
    for event in &events {
        match event {
            OutboundEvent::NotifyPeer {
                message: Message::Broadcast(topic, bytes),
                ..
            } => {
                assert_eq!(*topic, Topic(5));
                assert_eq!(&bytes[..], b"payload");
                assert!(Arc::ptr_eq(bytes, &payload));
            }
            _ => panic!("not a broadcast"),
        }
    }
    // neither the subscriptions nor the index moved
    assert!(node.subscribed().is_empty());
    assert_eq!(peer_ids(node.peers(&Topic(5))), Some(vec![1, 3]));
    assert_eq!(peer_ids(node.peers(&Topic(6))), Some(vec![4]));
}

#[test]
fn received_subscribe_enters_both_maps_and_is_reported() {
    let mut node = Broadcast::default();
    node.inject_connected(&PeerId(1));
    rx_subscribe(&mut node, 1, 5);
    assert_eq!(node.topics(&PeerId(1)), Some(vec![Topic(5)]));
    assert_eq!(node.peers(&Topic(5)), Some(vec![PeerId(1)]));
    assert_eq!(
        drain(&mut node),
        vec![OutboundEvent::Emit(BroadcastEvent::Subscribed(
            PeerId(1),
            Topic(5)
        ))]
    );
}

#[test]
fn repeated_subscribe_is_reported_again() {
    let mut node = Broadcast::default();
    node.inject_connected(&PeerId(1));
    rx_subscribe(&mut node, 1, 5);
    rx_subscribe(&mut node, 1, 5);
    assert_eq!(node.topics(&PeerId(1)), Some(vec![Topic(5)]));
    assert_eq!(node.peers(&Topic(5)), Some(vec![PeerId(1)]));
    let report = OutboundEvent::Emit(BroadcastEvent::Subscribed(PeerId(1), Topic(5)));
    assert_eq!(drain(&mut node), vec![report.clone(), report]);
}

#[test]
fn received_unsubscribe_leaves_both_maps_and_is_reported() {
    let mut node = Broadcast::default();
    node.inject_connected(&PeerId(1));
    node.inject_connected(&PeerId(2));
    rx_subscribe(&mut node, 1, 5);
    rx_subscribe(&mut node, 2, 5);
    rx_subscribe(&mut node, 1, 6);
    drain(&mut node);
    rx_unsubscribe(&mut node, 1, 5);
    assert_eq!(topic_ids(node.topics(&PeerId(1))), Some(vec![6]));
    assert_eq!(peer_ids(node.peers(&Topic(5))), Some(vec![2]));
    assert_eq!(peer_ids(node.peers(&Topic(6))), Some(vec![1]));
    assert_eq!(
        drain(&mut node),
        vec![OutboundEvent::Emit(BroadcastEvent::Unsubscribed(
            PeerId(1),
            Topic(5)
        ))]
    );
}

#[test]
fn unsubscribe_of_a_peer_that_never_subscribed_is_reported() {
    let mut node = Broadcast::default();
    node.inject_connected(&PeerId(1));
    rx_unsubscribe(&mut node, 1, 5);
    assert_eq!(node.topics(&PeerId(1)), Some(vec![]));
    assert_eq!(node.peers(&Topic(5)), None);
    assert_eq!(
        drain(&mut node),
        vec![OutboundEvent::Emit(BroadcastEvent::Unsubscribed(
            PeerId(1),
            Topic(5)
        ))]
    );
}

#[test]
fn last_unsubscribe_leaves_an_empty_entry_for_the_topic() {
    let mut node = Broadcast::default();
    node.inject_connected(&PeerId(1));
    rx_subscribe(&mut node, 1, 5);
    rx_unsubscribe(&mut node, 1, 5);
    assert_eq!(node.peers(&Topic(5)), Some(vec![]));
    assert_eq!(node.topics(&PeerId(1)), Some(vec![]));
}

#[test]
fn received_broadcast_is_reported_and_not_relayed() {
    let mut node = Broadcast::default();
    node.inject_connected(&PeerId(1));
    node.inject_connected(&PeerId(2));
    rx_subscribe(&mut node, 1, 5);
    rx_subscribe(&mut node, 2, 5);
    drain(&mut node);
    let payload: Arc<[u8]> = Arc::new(*b"msg");
    node.on_connection_handler_event(
        PeerId(1),
        HandlerEvent::Rx(Message::Broadcast(Topic(5), payload.clone())),
    );
    assert_eq!(
        drain(&mut node),
        vec![OutboundEvent::Emit(BroadcastEvent::Received(
            PeerId(1),
            Topic(5),
            payload
        ))]
    );
    assert_eq!(peer_ids(node.peers(&Topic(5))), Some(vec![1, 2]));
}

#[test]
fn received_broadcast_is_reported_without_a_local_subscription() {
    let mut node = Broadcast::default();
    let payload: Arc<[u8]> = Arc::new(*b"msg");
    // the sender need not even be known
    node.on_connection_handler_event(
        PeerId(9),
        HandlerEvent::Rx(Message::Broadcast(Topic(5), payload.clone())),
    );
    assert_eq!(
        node.poll(),
        Some(OutboundEvent::Emit(BroadcastEvent::Received(
            PeerId(9),
            Topic(5),
            payload
        )))
    );
    assert_eq!(node.poll(), None);
    assert_eq!(node.topics(&PeerId(9)), None);
}

#[test]
fn sent_acknowledgement_queues_nothing() {
    let mut node = Broadcast::default();
    node.inject_connected(&PeerId(1));
    node.on_connection_handler_event(PeerId(1), HandlerEvent::Tx);
    node.on_connection_handler_event(PeerId(2), HandlerEvent::Tx);
    assert_eq!(node.poll(), None);
    assert_eq!(node.topics(&PeerId(1)), Some(vec![]));
    assert_eq!(node.topics(&PeerId(2)), None);
}

#[test]
fn connected_peer_is_told_every_local_subscription() {
    let mut node = Broadcast::default();
    node.subscribe(Topic(5));
    node.subscribe(Topic(6));
    node.inject_connected(&PeerId(1));
    assert_eq!(node.topics(&PeerId(1)), Some(vec![]));
    let events = drain(&mut node);
    assert_eq!(events.len(), 2);
    let mut told = Vec::new();
    for event in events {
        match event {
            OutboundEvent::NotifyPeer {
                peer_id,
                message: Message::Subscribe(topic),
            } => {
                assert_eq!(peer_id, PeerId(1));
                told.push(topic.0);
            }
            _ => panic!("not a subscription"),
        }
    }
    assert_eq!(sorted(told), vec![5, 6]);
}

#[test]
fn connecting_a_known_peer_keeps_its_topics() {
    let mut node = Broadcast::default();
    node.inject_connected(&PeerId(1));
    rx_subscribe(&mut node, 1, 5);
    drain(&mut node);
    node.inject_connected(&PeerId(1));
    assert_eq!(node.topics(&PeerId(1)), Some(vec![Topic(5)]));
    assert_eq!(node.peers(&Topic(5)), Some(vec![PeerId(1)]));
    assert_symmetric(&node, &[1], &[5]);
}

#[test]
fn disconnect_cleans_the_index_and_queues_nothing() {
    let mut node = Broadcast::default();
    node.inject_connected(&PeerId(1));
    node.inject_connected(&PeerId(2));
    rx_subscribe(&mut node, 1, 5);
    rx_subscribe(&mut node, 1, 6);
    rx_subscribe(&mut node, 2, 5);
    drain(&mut node);
    node.inject_disconnected(&PeerId(1));
    assert_eq!(node.topics(&PeerId(1)), None);
    assert_eq!(peer_ids(node.peers(&Topic(5))), Some(vec![2]));
    assert_eq!(peer_ids(node.peers(&Topic(6))), Some(vec![]));
    assert_eq!(topic_ids(node.topics(&PeerId(2))), Some(vec![5]));
    assert_eq!(node.poll(), None);
}

#[test]
fn disconnect_of_an_unknown_peer_changes_nothing() {
    let mut node = Broadcast::default();
    node.inject_connected(&PeerId(2));
    rx_subscribe(&mut node, 2, 5);
    drain(&mut node);
    node.inject_disconnected(&PeerId(1));
    assert_eq!(peer_ids(node.peers(&Topic(5))), Some(vec![2]));
    assert_eq!(topic_ids(node.topics(&PeerId(2))), Some(vec![5]));
    assert_eq!(node.poll(), None);
}

#[test]
fn queued_notification_outlives_the_peer() {
    let mut node = Broadcast::default();
    node.inject_connected(&PeerId(1));
    node.subscribe(Topic(5));
    node.inject_disconnected(&PeerId(1));
    assert_eq!(
        drain(&mut node),
        vec![OutboundEvent::NotifyPeer {
            peer_id: PeerId(1),
            message: Message::Subscribe(Topic(5)),
        }]
    );
}

#[test]
fn first_connection_connects_and_later_ones_do_not() {
    let mut node = Broadcast::default();
    node.subscribe(Topic(5));
    node.on_swarm_event(SwarmEvent::ConnectionEstablished {
        peer_id: PeerId(1),
        other_established: 0,
    });
    assert_eq!(node.topics(&PeerId(1)), Some(vec![]));
    assert_eq!(drain(&mut node).len(), 1);
    node.on_swarm_event(SwarmEvent::ConnectionEstablished {
        peer_id: PeerId(1),
        other_established: 1,
    });
    assert_eq!(node.poll(), None);
    node.on_swarm_event(SwarmEvent::ConnectionEstablished {
        peer_id: PeerId(2),
        other_established: 3,
    });
    assert_eq!(node.topics(&PeerId(2)), None);
    assert_eq!(node.poll(), None);
}

#[test]
fn last_connection_closed_disconnects_and_earlier_ones_do_not() {
    let mut node = Broadcast::default();
    node.inject_connected(&PeerId(1));
    rx_subscribe(&mut node, 1, 5);
    drain(&mut node);
    node.on_swarm_event(SwarmEvent::ConnectionClosed {
        peer_id: PeerId(1),
        remaining_established: 1,
    });
    assert_eq!(node.topics(&PeerId(1)), Some(vec![Topic(5)]));
    node.on_swarm_event(SwarmEvent::ConnectionClosed {
        peer_id: PeerId(1),
        remaining_established: 0,
    });
    assert_eq!(node.topics(&PeerId(1)), None);
    assert_eq!(node.peers(&Topic(5)), Some(vec![]));
    assert_eq!(node.poll(), None);
}

#[test]
fn other_swarm_events_change_nothing() {
    let mut node = Broadcast::default();
    node.subscribe(Topic(5));
    node.inject_connected(&PeerId(1));
    drain(&mut node);
    node.on_swarm_event(SwarmEvent::Other);
    assert_eq!(node.subscribed(), vec![Topic(5)]);
    assert_eq!(node.topics(&PeerId(1)), Some(vec![]));
    assert_eq!(node.poll(), None);
}

#[test]
fn poll_hands_out_the_queue_oldest_first() {
    let mut node = Broadcast::default();
    node.inject_connected(&PeerId(1));
    rx_subscribe(&mut node, 1, 5);
    node.subscribe(Topic(7));
    rx_unsubscribe(&mut node, 1, 5);
    node.broadcast(&Topic(5), Arc::new(*b"late"));
    assert_eq!(
        node.poll(),
        Some(OutboundEvent::Emit(BroadcastEvent::Subscribed(
            PeerId(1),
            Topic(5)
        )))
    );
    assert_eq!(
        node.poll(),
        Some(OutboundEvent::NotifyPeer {
            peer_id: PeerId(1),
            message: Message::Subscribe(Topic(7)),
        })
    );
    assert_eq!(
        node.poll(),
        Some(OutboundEvent::Emit(BroadcastEvent::Unsubscribed(
            PeerId(1),
            Topic(5)
        )))
    );
    assert_eq!(node.poll(), None);
    assert_eq!(node.poll(), None);
}

#[test]
fn index_stays_symmetric_through_a_mixed_run() {
    let peers = [1, 2, 3];
    let topics = [5, 6, 7];
    let mut node = Broadcast::default();
    assert_symmetric(&node, &peers, &topics);
    node.inject_connected(&PeerId(1));
    node.inject_connected(&PeerId(2));
    assert_symmetric(&node, &peers, &topics);
    rx_subscribe(&mut node, 1, 5);
    rx_subscribe(&mut node, 2, 5);
    rx_subscribe(&mut node, 2, 6);
    assert_symmetric(&node, &peers, &topics);
    node.subscribe(Topic(7));
    node.broadcast(&Topic(5), Arc::new(*b"x"));
    assert_symmetric(&node, &peers, &topics);
    rx_unsubscribe(&mut node, 1, 5);
    rx_unsubscribe(&mut node, 1, 7);
    assert_symmetric(&node, &peers, &topics);
    node.inject_connected(&PeerId(3));
    rx_subscribe(&mut node, 3, 6);
    node.inject_disconnected(&PeerId(2));
    assert_symmetric(&node, &peers, &topics);
    node.inject_connected(&PeerId(2));
    node.unsubscribe(&Topic(7));
    drain(&mut node);
    assert_symmetric(&node, &peers, &topics);
    assert_eq!(peer_ids(node.peers(&Topic(5))), Some(vec![]));
    assert_eq!(peer_ids(node.peers(&Topic(6))), Some(vec![3]));
    assert_eq!(node.peers(&Topic(7)), None);
    assert_eq!(topic_ids(node.topics(&PeerId(2))), Some(vec![]));
}

#[test]
fn accessors_list_each_item_once() {
    let mut node = Broadcast::default();
    for topic in [9, 3, 7, 3, 9] {
        node.subscribe(Topic(topic));
    }
    let listed: Vec<u64> = node.subscribed().iter().map(|topic| topic.0).collect();
    assert_eq!(listed.len(), 3);
    assert_eq!(sorted(listed), vec![3, 7, 9]);
    for peer in [4, 2, 4, 8] {
        node.inject_connected(&PeerId(peer));
        rx_subscribe(&mut node, peer, 1);
    }
    let listed: Vec<u64> = node
        .peers(&Topic(1))
        .unwrap()
        .iter()
        .map(|peer| peer.0)
        .collect();
    assert_eq!(listed.len(), 3);
    assert_eq!(sorted(listed), vec![2, 4, 8]);
}
