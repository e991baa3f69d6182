//! Two nodes that exchange their outbound messages, as a swarm would.

use libp2p_broadcast::{
    Broadcast, BroadcastEvent, HandlerEvent, OutboundEvent, PeerId, Topic,
};
use std::collections::HashMap;
use std::sync::{Arc, Mutex};

struct DummySwarm {
    peer_id: PeerId,
    behaviour: Arc<Mutex<Broadcast>>,
    connections: HashMap<PeerId, Arc<Mutex<Broadcast>>>,
}

impl DummySwarm {
    fn new(id: u64) -> Self {
        Self {
            peer_id: PeerId(id),
            behaviour: Default::default(),
            connections: Default::default(),
        }
    }

    fn peer_id(&self) -> &PeerId {
        &self.peer_id
    }

    fn dial(&mut self, other: &mut DummySwarm) {
        self.behaviour
            .lock()
            .unwrap()
            .inject_connected(other.peer_id());
        self.connections
            .insert(*other.peer_id(), other.behaviour.clone());
        other
            .behaviour
            .lock()
            .unwrap()
            .inject_connected(self.peer_id());
        other
            .connections
            .insert(*self.peer_id(), self.behaviour.clone());
    }

    fn next(&self) -> Option<BroadcastEvent> {
        let mut me = self.behaviour.lock().unwrap();
        loop {
            match me.poll() {
                Some(OutboundEvent::NotifyPeer { peer_id, message }) => {
                    if let Some(other) = self.connections.get(&peer_id) {
                        let mut other = other.lock().unwrap();
                        other.on_connection_handler_event(
                            *self.peer_id(),
                            HandlerEvent::Rx(message),
                        );
                    }
                }
                Some(OutboundEvent::Emit(event)) => {
                    return Some(event);
                }
                None => {
                    return None;
                }
            }
        }
    }

    fn subscribe(&self, topic: Topic) {
        let mut me = self.behaviour.lock().unwrap();
        me.subscribe(topic);
    }

    fn unsubscribe(&self, topic: &Topic) {
        let mut me = self.behaviour.lock().unwrap();
        me.unsubscribe(topic);
    }

    fn broadcast(&self, topic: &Topic, msg: Arc<[u8]>) {
        let mut me = self.behaviour.lock().unwrap();
        me.broadcast(topic, msg);
    }
}

#[test]
fn test_broadcast() {
    let topic = Topic::new(b"topic");
    let msg = Arc::new(*b"msg");
    let mut a = DummySwarm::new(1);
    let mut b = DummySwarm::new(2);

    a.subscribe(topic);
    a.dial(&mut b);
    assert!(a.next().is_none());
    assert_eq!(
        b.next().unwrap(),
        BroadcastEvent::Subscribed(*a.peer_id(), topic)
    );
    b.subscribe(topic);
    assert!(b.next().is_none());
    assert_eq!(
        a.next().unwrap(),
        BroadcastEvent::Subscribed(*b.peer_id(), topic)
    );
    b.broadcast(&topic, msg.clone());
    assert!(b.next().is_none());
    assert_eq!(
        a.next().unwrap(),
        BroadcastEvent::Received(*b.peer_id(), topic, msg)
    );
    a.unsubscribe(&topic);
    assert!(a.next().is_none());
    assert_eq!(
        b.next().unwrap(),
        BroadcastEvent::Unsubscribed(*a.peer_id(), topic)
    );
}

#[test]
fn three_nodes_flood_to_direct_subscribers_only() {
    let topic = Topic::new(b"news");
    let msg: Arc<[u8]> = Arc::new(*b"hello");
    let mut a = DummySwarm::new(10);
    let mut b = DummySwarm::new(20);
    let mut c = DummySwarm::new(30);
    a.dial(&mut b);
    b.dial(&mut c);
    c.subscribe(topic);
    assert!(c.next().is_none());
    assert_eq!(b.next(), Some(BroadcastEvent::Subscribed(PeerId(30), topic)));
    // a is not connected to c and never hears of the subscription
    assert!(a.next().is_none());
    // a publishes: nobody a knows is subscribed
    a.broadcast(&topic, msg.clone());
    assert!(a.next().is_none());
    assert!(b.next().is_none());
    // b publishes: c receives, and does not send it on
    b.broadcast(&topic, msg.clone());
    assert!(b.next().is_none());
    assert_eq!(
        c.next(),
        Some(BroadcastEvent::Received(PeerId(20), topic, msg))
    );
    assert!(c.next().is_none());
    assert!(b.next().is_none());
}
