//! Peer-coordination core of a decentralized file-sharing and chat overlay.
//!
//! The crate holds the verified heart of the node: the length-delimited
//! framing codec of the point-to-point file-exchange protocol, the
//! gossip announcement codec of the file directory, the actor's state
//! tables, and the actor's command/event dispatch logic. The network
//! engine itself (transports, gossip dissemination, peer discovery) is
//! an outside collaborator: the actor consumes plain-value events and
//! returns plain-value actions for the surrounding runtime to perform.

pub mod varint;
pub mod codec;
pub mod announce;
pub mod tables;
pub mod event_loop;
