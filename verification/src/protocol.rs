//! Topics, the three message kinds and the protocol configuration.

use fnv::FnvHasher;
use std::hash::Hasher;
use std::sync::Arc;
use vstd::prelude::*;

verus! {

/// The value a 64-bit FNV-1a hash starts from.
pub const FNV_OFFSET_BASIS: u64 = 0xcbf29ce484222325;

/// The multiplier of the 64-bit FNV-1a hash.
pub const FNV_PRIME: u64 = 0x100000001b3;

/// One step of FNV-1a: fold a byte into the running hash.
pub open spec fn fnv1a_step(hash: u64, byte: u8) -> u64 {
    (((hash ^ (byte as u64)) * FNV_PRIME) % 0x1_0000_0000_0000_0000) as u64
}

/// The 64-bit FNV-1a hash of a byte string.
pub open spec fn fnv1a(bytes: Seq<u8>) -> u64
    decreases bytes.len(),
{
    if bytes.len() == 0 {
        FNV_OFFSET_BASIS
    } else {
        fnv1a_step(fnv1a(bytes.drop_last()), bytes.last())
    }
}

/// Hashes `bytes` with `fnv::FnvHasher`: `FnvHasher::default()`, one `write`
/// of the whole slice, then `finish`. The hasher starts from the offset
/// basis and, for each byte in order, xors it in and multiplies by the
/// prime with wrap-around; `finish` hands back the running value.
#[verifier::external_body]
fn fnv1a_hash(bytes: &[u8]) -> (hash: u64)
    ensures
        hash == fnv1a(bytes@),
{
    let mut hasher = FnvHasher::default();
    hasher.write(bytes);
    hasher.finish()
}

/// Identifier of a publish/subscribe channel: the hash of its name.
#[derive(Clone, Copy, Debug, PartialEq, Eq, Hash, Structural)]
pub struct Topic(pub u64);

impl Topic {
    /// The topic named `name`.
    pub fn new(name: &[u8]) -> (topic: Topic)
        ensures
            topic == Topic(fnv1a(name@)),
    {
        Topic(fnv1a_hash(name))
    }

    /// The identifier itself.
    pub fn id(&self) -> (id: u64)
        ensures
            id == self.0,
    {
        self.0
    }
}

/// Makes another handle to the bytes behind `payload` with `Arc::clone`,
/// which copies the pointer, not the bytes: both handles show the same
/// contents.
#[verifier::external_body]
pub(crate) fn share(payload: &Arc<[u8]>) -> (handle: Arc<[u8]>)
    ensures
        handle == *payload,
{
    Arc::clone(payload)
}

/// What one node sends to another.
#[derive(Debug, PartialEq, Eq)]
pub enum Message {
    /// The sender is interested in the topic.
    Subscribe(Topic),
    /// A payload published on the topic.
    Broadcast(Topic, Arc<[u8]>),
    /// The sender is no longer interested in the topic.
    Unsubscribe(Topic),
}

impl Message {
    /// The topic the message is about.
    pub open spec fn topic(self) -> Topic {
        match self {
            Message::Subscribe(topic) => topic,
            Message::Broadcast(topic, _) => topic,
            Message::Unsubscribe(topic) => topic,
        }
    }

}

impl Clone for Message {
    /// A copy of the message that shares the payload with `self`.
    fn clone(&self) -> (copy: Message)
        ensures
            copy == *self,
    {
        match self {
            Message::Subscribe(topic) => Message::Subscribe(*topic),
            Message::Broadcast(topic, payload) => Message::Broadcast(*topic, share(payload)),
            Message::Unsubscribe(topic) => Message::Unsubscribe(*topic),
        }
    }
}

/// Wire-level settings, handed through to the connection handlers.
#[derive(Clone, Copy, Debug, PartialEq, Eq, Structural)]
pub struct BroadcastConfig {
    /// Largest message, in bytes, that is read from a peer.
    pub max_buf_size: usize,
}

impl Default for BroadcastConfig {
    fn default() -> (config: BroadcastConfig)
        ensures
            config == (BroadcastConfig { max_buf_size: 4194304 }),
    {
        BroadcastConfig { max_buf_size: 4194304 }
    }
}

} // verus!
