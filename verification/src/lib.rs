//! Topic-based publish/subscribe flooding for a peer-to-peer overlay.
//!
//! A node keeps a two-way index between its connected peers and the topics
//! they announced, and a queue of outbound events. Every operation is a
//! synchronous step on that state; the host drains the queue.

pub mod behaviour;
pub mod event;
mod index;
pub mod laws;
pub mod model;
pub mod protocol;

pub use behaviour::Broadcast;
pub use event::{BroadcastEvent, HandlerEvent, OutboundEvent, PeerId, SwarmEvent};
pub use model::BroadcastView;
pub use protocol::{BroadcastConfig, Message, Topic};
