//! The peer-coordination actor: command/event dispatch and state tables.
//!
//! The actor is a single cooperative loop. On each turn it consumes one
//! input — a caller command, a network-engine event, or the republish
//! timer tick — mutates its tables, and returns the list of actions the
//! surrounding runtime must perform: resolving a caller's reply channel,
//! emitting a notification event, or invoking one of the engine's
//! capabilities (dial, publish, send a request or response, register an
//! address, read a file). Engine calls whose immediate outcome feeds a
//! decision re-enter through the `handle_*_outcome` functions, so every
//! decision the loop makes is verified here while all I/O stays
//! outside.
//!
//! Peers, addresses, filenames, paths and payloads are carried as plain
//! byte strings; reply channels are named by caller-chosen tokens; the
//! engine's correlation ids are plain integers.

use vstd::prelude::*;
use crate::tables::Table;
use crate::varint::clone_bytes;
use crate::announce::{
    FileAnnouncement, views_of_addrs, spec_decode_announcement, spec_encode_announcement,
    decode_announcement, encode_announcement, clone_addrs,
};

verus! {

/// The path separator byte in provided-file paths.
pub const PATH_SEPARATOR: u8 = 47;

/// A caller command, paired with the token of its single-use reply.
#[derive(Debug, Clone, PartialEq, Eq)]
pub enum Command {
    Dial { peer_id: Vec<u8>, reply: u64 },
    Provide { file_name: Vec<u8>, reply: u64 },
    Get { file_name: Vec<u8>, reply: u64 },
    Message { message: Vec<u8>, reply: u64 },
}

/// A notification from the actor to the caller-facing event stream.
#[derive(Debug, Clone, PartialEq, Eq)]
pub enum Event {
    ConnectionEstablished { endpoint: Vec<u8> },
    NewListenAddr { address: Vec<u8> },
    Identify { peer: Vec<u8>, info: Vec<u8> },
    NewProvider { peer: Vec<u8>, file: Vec<u8> },
    NewMessage { peer: Vec<u8>, message_id: Vec<u8>, message: Vec<u8> },
}

/// Which gossip topic an inbound message arrived on.
#[derive(Debug, Clone, Copy, PartialEq, Eq, Structural)]
pub enum Topic {
    Chat,
    Files,
    Other,
}

/// An inbound network-engine event, flattened to plain values.
#[derive(Debug, Clone, PartialEq, Eq)]
pub enum NetworkEvent {
    Identified { peer: Vec<u8>, info: Vec<u8> },
    ConnectionEstablished { peer: Vec<u8>, endpoint: Vec<u8> },
    NewListenAddr { address: Vec<u8> },
    GossipMessage { source: Vec<u8>, topic: Topic, message_id: Vec<u8>, data: Vec<u8> },
    InboundRequest { payload: Vec<u8>, channel: u64 },
    InboundResponse { request_id: u64, payload: Vec<u8> },
    OutboundFailure { request_id: u64, error: String },
    PeerDiscovered { peer: Vec<u8>, address: Vec<u8> },
}

/// Why a command failed.
#[derive(Debug, Clone, PartialEq, Eq)]
pub enum ActorError {
    /// The path handed to a provide command could not be opened.
    NotOpenable { path: Vec<u8> },
    /// The path handed to a provide command has no terminal filename
    /// component.
    NoFileName { path: Vec<u8> },
    /// No provider is known for the requested filename.
    NoProvider { file_name: Vec<u8> },
    /// The network engine reported a failure, described by its message.
    Engine { message: String },
}

/// An effect the surrounding runtime must perform on the actor's behalf.
#[derive(Debug, PartialEq, Eq)]
pub enum Action {
    /// Resolve a unit-valued reply channel.
    ResolveUnit { reply: u64, result: Result<(), ActorError> },
    /// Resolve a byte-valued reply channel.
    ResolveBytes { reply: u64, result: Result<Vec<u8>, ActorError> },
    /// Push a notification onto the caller-facing event stream.
    Emit { event: Event },
    /// Ask the engine to dial `peer`; feed the immediate outcome back
    /// through `handle_dial_outcome`.
    StartDial { peer: Vec<u8> },
    /// Probe whether `path` is openable; feed the result back through
    /// `handle_provide_outcome`.
    CheckFile { path: Vec<u8>, reply: u64 },
    /// Send a file request to `peer`; feed the engine-issued correlation
    /// id back through `handle_request_dispatched`.
    SendRequest { peer: Vec<u8>, payload: Vec<u8>, reply: u64 },
    /// Publish on the chat topic; feed the immediate outcome back
    /// through `handle_publish_outcome`.
    PublishChat { payload: Vec<u8>, reply: u64 },
    /// Publish an encoded announcement on the file-directory topic;
    /// failures are only logged.
    PublishAnnouncement { payload: Vec<u8> },
    /// Register `address` for `peer` in the engine's address book.
    AddAddress { peer: Vec<u8>, address: Vec<u8> },
    /// Dial a peer found by local discovery; no reply is owed.
    DialDiscovered { peer: Vec<u8> },
    /// Read the file at `path` and send its bytes over the inbound
    /// request's correlation channel; on a failed read, send nothing.
    ReadAndRespond { path: Vec<u8>, channel: u64 },
}

/// The actor's state: the five tables it exclusively owns.
pub struct EventLoop {
    /// Peers with an outstanding dial, each holding one reply token.
    pub pending_dial: Table<Vec<u8>, u64>,
    /// First observed provider of each announced filename.
    pub known_files: Table<Vec<u8>, Vec<u8>>,
    /// Locally provided files: registration key to local path.
    pub provided_files: Table<Vec<u8>, Vec<u8>>,
    /// Outstanding file requests: correlation id to reply token.
    pub pending_requests: Table<u64, u64>,
    /// Peers already seen through local discovery.
    pub known_peers: Table<Vec<u8>, ()>,
}

// ---------------------------------------------------------------------
// Spec-level transition functions. The handlers' contracts are stated
// over these, and the laws at the bottom of the module compose them.
// ---------------------------------------------------------------------

/// First-writer-wins registration: a later announcement never overwrites
/// an existing binding.
pub open spec fn spec_register_provider(
    m: Map<Seq<u8>, Seq<u8>>,
    file: Seq<u8>,
    peer: Seq<u8>,
) -> Map<Seq<u8>, Seq<u8>> {
    if m.contains_key(file) {
        m
    } else {
        m.insert(file, peer)
    }
}

/// Whether registering `file` would be its first binding, and so emit a
/// new-provider notification.
pub open spec fn spec_provider_is_new(m: Map<Seq<u8>, Seq<u8>>, file: Seq<u8>) -> bool {
    !m.contains_key(file)
}

/// The dial table after a dial command, and whether a dial is started.
pub open spec fn spec_dial_step(
    m: Map<Seq<u8>, u64>,
    peer: Seq<u8>,
    reply: u64,
) -> (Map<Seq<u8>, u64>, bool) {
    if m.contains_key(peer) {
        (m, false)
    } else {
        (m.insert(peer, reply), true)
    }
}

/// The request table after a dispatch, and whether the correlation id
/// was fresh; a colliding id leaves the table unchanged.
pub open spec fn spec_dispatch_step(
    m: Map<u64, u64>,
    request_id: u64,
    reply: u64,
) -> (Map<u64, u64>, bool) {
    if m.contains_key(request_id) {
        (m, false)
    } else {
        (m.insert(request_id, reply), true)
    }
}

/// The registration key of a provided path: the bytes after the last
/// path separator; empty when the path ends in a separator or is empty.
pub open spec fn spec_file_key(path: Seq<u8>) -> Seq<u8>
    decreases path.len(),
{
    if path.len() == 0 {
        Seq::empty()
    } else if path.last() == PATH_SEPARATOR {
        Seq::empty()
    } else {
        spec_file_key(path.drop_last()).push(path.last())
    }
}

// Action shapes, compared by view so that copies of byte strings count.

pub open spec fn is_resolve_unit_ok(a: Action, reply: u64) -> bool {
    a matches Action::ResolveUnit { reply: r, result } && r == reply && result is Ok
}

pub open spec fn is_resolve_unit_engine_err(a: Action, reply: u64, message: Seq<char>) -> bool {
    a matches Action::ResolveUnit {
        reply: r,
        result: Err(ActorError::Engine { message: m }),
    } && r == reply && m@ == message
}

pub open spec fn is_resolve_unit_not_openable(a: Action, reply: u64, path: Seq<u8>) -> bool {
    a matches Action::ResolveUnit {
        reply: r,
        result: Err(ActorError::NotOpenable { path: p }),
    } && r == reply && p@ == path
}

pub open spec fn is_resolve_unit_no_file_name(a: Action, reply: u64, path: Seq<u8>) -> bool {
    a matches Action::ResolveUnit {
        reply: r,
        result: Err(ActorError::NoFileName { path: p }),
    } && r == reply && p@ == path
}

pub open spec fn is_resolve_bytes_ok(a: Action, reply: u64, bytes: Seq<u8>) -> bool {
    a matches Action::ResolveBytes { reply: r, result: Ok(b) } && r == reply && b@ == bytes
}

pub open spec fn is_resolve_bytes_engine_err(a: Action, reply: u64, message: Seq<char>) -> bool {
    a matches Action::ResolveBytes {
        reply: r,
        result: Err(ActorError::Engine { message: m }),
    } && r == reply && m@ == message
}

pub open spec fn is_resolve_bytes_no_provider(a: Action, reply: u64, file: Seq<u8>) -> bool {
    a matches Action::ResolveBytes {
        reply: r,
        result: Err(ActorError::NoProvider { file_name: f }),
    } && r == reply && f@ == file
}

pub open spec fn is_start_dial(a: Action, peer: Seq<u8>) -> bool {
    a matches Action::StartDial { peer: p } && p@ == peer
}

pub open spec fn is_check_file(a: Action, path: Seq<u8>, reply: u64) -> bool {
    a matches Action::CheckFile { path: p, reply: r } && p@ == path && r == reply
}

pub open spec fn is_send_request(a: Action, peer: Seq<u8>, payload: Seq<u8>, reply: u64) -> bool {
    a matches Action::SendRequest { peer: pe, payload: pa, reply: r }
        && pe@ == peer && pa@ == payload && r == reply
}

pub open spec fn is_publish_chat(a: Action, payload: Seq<u8>, reply: u64) -> bool {
    a matches Action::PublishChat { payload: p, reply: r } && p@ == payload && r == reply
}

pub open spec fn is_publish_announcement(a: Action, payload: Seq<u8>) -> bool {
    a matches Action::PublishAnnouncement { payload: p } && p@ == payload
}

pub open spec fn is_add_address(a: Action, peer: Seq<u8>, address: Seq<u8>) -> bool {
    a matches Action::AddAddress { peer: p, address: ad } && p@ == peer && ad@ == address
}

pub open spec fn is_dial_discovered(a: Action, peer: Seq<u8>) -> bool {
    a matches Action::DialDiscovered { peer: p } && p@ == peer
}

pub open spec fn is_read_and_respond(a: Action, path: Seq<u8>, channel: u64) -> bool {
    a matches Action::ReadAndRespond { path: p, channel: c } && p@ == path && c == channel
}

pub open spec fn is_emit_connection_established(a: Action, endpoint: Seq<u8>) -> bool {
    a matches Action::Emit { event: Event::ConnectionEstablished { endpoint: e } }
        && e@ == endpoint
}

pub open spec fn is_emit_new_listen_addr(a: Action, address: Seq<u8>) -> bool {
    a matches Action::Emit { event: Event::NewListenAddr { address: ad } } && ad@ == address
}

pub open spec fn is_emit_identify(a: Action, peer: Seq<u8>, info: Seq<u8>) -> bool {
    a matches Action::Emit { event: Event::Identify { peer: p, info: i } }
        && p@ == peer && i@ == info
}

pub open spec fn is_emit_new_provider(a: Action, peer: Seq<u8>, file: Seq<u8>) -> bool {
    a matches Action::Emit { event: Event::NewProvider { peer: p, file: f } }
        && p@ == peer && f@ == file
}

pub open spec fn is_emit_new_message(
    a: Action,
    peer: Seq<u8>,
    message_id: Seq<u8>,
    message: Seq<u8>,
) -> bool {
    a matches Action::Emit { event: Event::NewMessage { peer: p, message_id: mi, message: m } }
        && p@ == peer && mi@ == message_id && m@ == message
}

// Frame predicates: which tables a step leaves untouched.

pub open spec fn only_pending_dial_changed(pre: EventLoop, post: EventLoop) -> bool {
    &&& post.known_files == pre.known_files
    &&& post.provided_files == pre.provided_files
    &&& post.pending_requests == pre.pending_requests
    &&& post.known_peers == pre.known_peers
}

pub open spec fn only_known_files_changed(pre: EventLoop, post: EventLoop) -> bool {
    &&& post.pending_dial == pre.pending_dial
    &&& post.provided_files == pre.provided_files
    &&& post.pending_requests == pre.pending_requests
    &&& post.known_peers == pre.known_peers
}

pub open spec fn only_provided_files_changed(pre: EventLoop, post: EventLoop) -> bool {
    &&& post.pending_dial == pre.pending_dial
    &&& post.known_files == pre.known_files
    &&& post.pending_requests == pre.pending_requests
    &&& post.known_peers == pre.known_peers
}

pub open spec fn only_pending_requests_changed(pre: EventLoop, post: EventLoop) -> bool {
    &&& post.pending_dial == pre.pending_dial
    &&& post.known_files == pre.known_files
    &&& post.provided_files == pre.provided_files
    &&& post.known_peers == pre.known_peers
}

pub open spec fn only_known_peers_changed(pre: EventLoop, post: EventLoop) -> bool {
    &&& post.pending_dial == pre.pending_dial
    &&& post.known_files == pre.known_files
    &&& post.provided_files == pre.provided_files
    &&& post.pending_requests == pre.pending_requests
}

// Per-input step descriptions.

/// A dial command: a no-op when a dial for the peer is already pending
/// (only one reply channel is retained per peer, so the newer caller's
/// reply is dropped — a deliberate design choice of this interface);
/// otherwise the reply is parked and one dial is started.
pub open spec fn spec_dial_command(
    pre: EventLoop,
    post: EventLoop,
    peer: Seq<u8>,
    reply: u64,
    actions: Seq<Action>,
) -> bool {
    let step = spec_dial_step(pre.pending_dial@, peer, reply);
    &&& post.pending_dial@ == step.0
    &&& only_pending_dial_changed(pre, post)
    &&& if step.1 {
        actions.len() == 1 && is_start_dial(actions[0], peer)
    } else {
        actions.len() == 0
    }
}

/// A get command: an unknown filename fails immediately and dispatches
/// nothing; a known one asks the runtime to send one request to the
/// bound provider.
pub open spec fn spec_get_command(
    pre: EventLoop,
    post: EventLoop,
    file: Seq<u8>,
    reply: u64,
    actions: Seq<Action>,
) -> bool {
    &&& post == pre
    &&& actions.len() == 1
    &&& if pre.known_files@.contains_key(file) {
        is_send_request(actions[0], pre.known_files@[file], file, reply)
    } else {
        is_resolve_bytes_no_provider(actions[0], reply, file)
    }
}

/// A files-topic gossip message: a malformed announcement is discarded;
/// a well-formed one registers every advertised address and applies the
/// first-writer-wins rule, emitting a new-provider notification exactly
/// when the binding is first.
pub open spec fn spec_files_gossip(
    pre: EventLoop,
    post: EventLoop,
    source: Seq<u8>,
    data: Seq<u8>,
    actions: Seq<Action>,
) -> bool {
    match spec_decode_announcement(data) {
        None => post == pre && actions.len() == 0,
        Some(rec) => {
            let file = rec.0;
            let addrs = rec.1;
            &&& post.known_files@ == spec_register_provider(pre.known_files@, file, source)
            &&& only_known_files_changed(pre, post)
            &&& forall|i: int| 0 <= i < addrs.len()
                ==> is_add_address(#[trigger] actions[i], source, addrs[i])
            &&& if spec_provider_is_new(pre.known_files@, file) {
                actions.len() == addrs.len() + 1
                    && is_emit_new_provider(actions[addrs.len() as int], source, file)
            } else {
                actions.len() == addrs.len()
            }
        },
    }
}

/// A connection-established event resolves a pending dial for that peer,
/// if one exists, and is always forwarded to the event stream.
pub open spec fn spec_connection_established(
    pre: EventLoop,
    post: EventLoop,
    peer: Seq<u8>,
    endpoint: Seq<u8>,
    actions: Seq<Action>,
) -> bool {
    if pre.pending_dial@.contains_key(peer) {
        &&& post.pending_dial@ == pre.pending_dial@.remove(peer)
        &&& only_pending_dial_changed(pre, post)
        &&& actions.len() == 2
        &&& is_resolve_unit_ok(actions[0], pre.pending_dial@[peer])
        &&& is_emit_connection_established(actions[1], endpoint)
    } else {
        &&& post == pre
        &&& actions.len() == 1
        &&& is_emit_connection_established(actions[0], endpoint)
    }
}

/// An inbound file request is answered only when the named file is
/// provided locally; an unknown name is dropped silently, so the remote
/// learns of it only through its own timeout. This asymmetry is part of
/// the wire protocol.
pub open spec fn spec_inbound_request(
    pre: EventLoop,
    post: EventLoop,
    payload: Seq<u8>,
    channel: u64,
    actions: Seq<Action>,
) -> bool {
    &&& post == pre
    &&& if pre.provided_files@.contains_key(payload) {
        actions.len() == 1
            && is_read_and_respond(actions[0], pre.provided_files@[payload], channel)
    } else {
        actions.len() == 0
    }
}

/// An inbound response resolves the matching pending request with the
/// payload; a response with no matching entry is a bookkeeping violation
/// and changes nothing.
pub open spec fn spec_inbound_response(
    pre: EventLoop,
    post: EventLoop,
    request_id: u64,
    payload: Seq<u8>,
    actions: Seq<Action>,
) -> bool {
    if pre.pending_requests@.contains_key(request_id) {
        &&& post.pending_requests@ == pre.pending_requests@.remove(request_id)
        &&& only_pending_requests_changed(pre, post)
        &&& actions.len() == 1
        &&& is_resolve_bytes_ok(actions[0], pre.pending_requests@[request_id], payload)
    } else {
        post == pre && actions.len() == 0
    }
}

/// An outbound failure resolves the matching pending request with the
/// engine's error description; with no matching entry it changes
/// nothing.
pub open spec fn spec_outbound_failure(
    pre: EventLoop,
    post: EventLoop,
    request_id: u64,
    error: Seq<char>,
    actions: Seq<Action>,
) -> bool {
    if pre.pending_requests@.contains_key(request_id) {
        &&& post.pending_requests@ == pre.pending_requests@.remove(request_id)
        &&& only_pending_requests_changed(pre, post)
        &&& actions.len() == 1
        &&& is_resolve_bytes_engine_err(actions[0], pre.pending_requests@[request_id], error)
    } else {
        post == pre && actions.len() == 0
    }
}

/// A locally discovered peer has its address registered always, and is
/// dialed once: only on first discovery.
pub open spec fn spec_peer_discovered(
    pre: EventLoop,
    post: EventLoop,
    peer: Seq<u8>,
    address: Seq<u8>,
    actions: Seq<Action>,
) -> bool {
    &&& is_add_address(actions[0], peer, address)
    &&& if pre.known_peers@.contains_key(peer) {
        post == pre && actions.len() == 1
    } else {
        &&& post.known_peers@ == pre.known_peers@.insert(peer, ())
        &&& only_known_peers_changed(pre, post)
        &&& actions.len() == 2
        &&& is_dial_discovered(actions[1], peer)
    }
}

impl EventLoop {
    /// All five tables are well-formed.
    pub open spec fn wf(&self) -> bool {
        &&& self.pending_dial.wf()
        &&& self.known_files.wf()
        &&& self.provided_files.wf()
        &&& self.pending_requests.wf()
        &&& self.known_peers.wf()
    }

    /// A fresh actor with empty tables.
    pub fn new() -> (el: EventLoop)
        ensures
            el.wf(),
            el.pending_dial@ == Map::<Seq<u8>, u64>::empty(),
            el.known_files@ == Map::<Seq<u8>, Seq<u8>>::empty(),
            el.provided_files@ == Map::<Seq<u8>, Seq<u8>>::empty(),
            el.pending_requests@ == Map::<u64, u64>::empty(),
            el.known_peers@ == Map::<Seq<u8>, ()>::empty(),
            el.provided_files.key_seq() == Seq::<Seq<u8>>::empty(),
    {
        EventLoop {
            pending_dial: Table::new(),
            known_files: Table::new(),
            provided_files: Table::new(),
            pending_requests: Table::new(),
            known_peers: Table::new(),
        }
    }

    /// React to one caller command.
    pub fn handle_command(&mut self, command: Command) -> (actions: Vec<Action>)
        requires
            old(self).wf(),
        ensures
            final(self).wf(),
            match command {
                Command::Dial { peer_id, reply } => spec_dial_command(
                    *old(self),
                    *final(self),
                    peer_id@,
                    reply,
                    actions@,
                ),
                Command::Provide { file_name, reply } => *final(self) == *old(self)
                    && actions@.len() == 1 && is_check_file(actions@[0], file_name@, reply),
                Command::Get { file_name, reply } => spec_get_command(
                    *old(self),
                    *final(self),
                    file_name@,
                    reply,
                    actions@,
                ),
                Command::Message { message, reply } => *final(self) == *old(self)
                    && actions@.len() == 1 && is_publish_chat(actions@[0], message@, reply),
            },
    {
        let mut actions: Vec<Action> = Vec::new();
        match command {
            Command::Dial { peer_id, reply } => {
                if !self.pending_dial.contains(&peer_id) {
                    let peer_copy = clone_bytes(&peer_id);
                    self.pending_dial.insert(peer_id, reply);
                    actions.push(Action::StartDial { peer: peer_copy });
                }
                // An already-pending peer is not re-dialed and the new
                // reply token is dropped.
            },
            Command::Provide { file_name, reply } => {
                actions.push(Action::CheckFile { path: file_name, reply });
            },
            Command::Get { file_name, reply } => {
                let found = match self.known_files.get(&file_name) {
                    Some(peer) => Some(clone_bytes(peer)),
                    None => None,
                };
                match found {
                    Some(peer) => {
                        actions.push(Action::SendRequest { peer, payload: file_name, reply });
                    },
                    None => {
                        actions.push(Action::ResolveBytes {
                            reply,
                            result: Err(ActorError::NoProvider { file_name }),
                        });
                    },
                }
            },
            Command::Message { message, reply } => {
                actions.push(Action::PublishChat { payload: message, reply });
            },
        }
        actions
    }

    /// Complete a dial command once the engine reported the immediate
    /// outcome of the dial attempt: a failed attempt resolves the parked
    /// reply with the engine's error and clears the pending entry; a
    /// successful attempt stays pending until the connection appears.
    pub fn handle_dial_outcome(&mut self, peer_id: &Vec<u8>, ok: bool, error: String)
        -> (actions: Vec<Action>)
        requires
            old(self).wf(),
        ensures
            final(self).wf(),
            ({
                let pre = *old(self);
                let post = *final(self);
                if pre.pending_dial@.contains_key(peer_id@) && !ok {
                    &&& post.pending_dial@ == pre.pending_dial@.remove(peer_id@)
                    &&& only_pending_dial_changed(pre, post)
                    &&& actions@.len() == 1
                    &&& is_resolve_unit_engine_err(
                        actions@[0],
                        pre.pending_dial@[peer_id@],
                        error@,
                    )
                } else {
                    post == pre && actions@.len() == 0
                }
            }),
    {
        let mut actions: Vec<Action> = Vec::new();
        if !ok {
            match self.pending_dial.remove(peer_id) {
                Some(reply) => {
                    actions.push(Action::ResolveUnit {
                        reply,
                        result: Err(ActorError::Engine { message: error }),
                    });
                },
                None => {},
            }
        }
        actions
    }

    /// Complete a provide command once the runtime probed the path: an
    /// unopenable path fails; a path without a terminal filename
    /// component fails; otherwise the file is registered (or its path
    /// overwritten) under the path's terminal component and the caller
    /// succeeds.
    pub fn handle_provide_outcome(&mut self, file_name: Vec<u8>, openable: bool, reply: u64)
        -> (actions: Vec<Action>)
        requires
            old(self).wf(),
        ensures
            final(self).wf(),
            ({
                let pre = *old(self);
                let post = *final(self);
                let key = spec_file_key(file_name@);
                if !openable {
                    &&& post == pre
                    &&& actions@.len() == 1
                    &&& is_resolve_unit_not_openable(actions@[0], reply, file_name@)
                } else if key.len() == 0 {
                    &&& post == pre
                    &&& actions@.len() == 1
                    &&& is_resolve_unit_no_file_name(actions@[0], reply, file_name@)
                } else {
                    &&& post.provided_files@ == pre.provided_files@.insert(key, file_name@)
                    &&& only_provided_files_changed(pre, post)
                    &&& actions@.len() == 1
                    &&& is_resolve_unit_ok(actions@[0], reply)
                }
            }),
    {
        let mut actions: Vec<Action> = Vec::new();
        if !openable {
            actions.push(Action::ResolveUnit {
                reply,
                result: Err(ActorError::NotOpenable { path: file_name }),
            });
            return actions;
        }
        let key = file_key_of(&file_name);
        if key.len() == 0 {
            actions.push(Action::ResolveUnit {
                reply,
                result: Err(ActorError::NoFileName { path: file_name }),
            });
            return actions;
        }
        self.provided_files.insert(key, file_name);
        actions.push(Action::ResolveUnit { reply, result: Ok(()) });
        actions
    }

    /// Park the reply of a dispatched get command under the correlation
    /// id the engine issued. A colliding id — a bookkeeping violation
    /// the engine's uniqueness promise rules out — changes nothing and
    /// returns false so the runtime can log it loudly.
    pub fn handle_request_dispatched(&mut self, request_id: u64, reply: u64) -> (fresh: bool)
        requires
            old(self).wf(),
        ensures
            final(self).wf(),
            ({
                let step = spec_dispatch_step(old(self).pending_requests@, request_id, reply);
                &&& final(self).pending_requests@ == step.0
                &&& fresh == step.1
                &&& only_pending_requests_changed(*old(self), *final(self))
            }),
    {
        if self.pending_requests.contains(&request_id) {
            false
        } else {
            self.pending_requests.insert(request_id, reply);
            true
        }
    }

    /// Complete a message command from the immediate publish outcome.
    pub fn handle_publish_outcome(&self, reply: u64, ok: bool, error: String) -> (a: Action)
        ensures
            if ok {
                is_resolve_unit_ok(a, reply)
            } else {
                is_resolve_unit_engine_err(a, reply, error@)
            },
    {
        if ok {
            Action::ResolveUnit { reply, result: Ok(()) }
        } else {
            Action::ResolveUnit { reply, result: Err(ActorError::Engine { message: error }) }
        }
    }

    /// React to one network-engine event.
    pub fn handle_event(&mut self, event: NetworkEvent) -> (actions: Vec<Action>)
        requires
            old(self).wf(),
        ensures
            final(self).wf(),
            match event {
                NetworkEvent::Identified { peer, info } => *final(self) == *old(self)
                    && actions@.len() == 1 && is_emit_identify(actions@[0], peer@, info@),
                NetworkEvent::ConnectionEstablished { peer, endpoint } =>
                    spec_connection_established(
                        *old(self),
                        *final(self),
                        peer@,
                        endpoint@,
                        actions@,
                    ),
                NetworkEvent::NewListenAddr { address } => *final(self) == *old(self)
                    && actions@.len() == 1 && is_emit_new_listen_addr(actions@[0], address@),
                NetworkEvent::GossipMessage { source, topic, message_id, data } => match topic {
                    Topic::Chat => *final(self) == *old(self) && actions@.len() == 1
                        && is_emit_new_message(actions@[0], source@, message_id@, data@),
                    Topic::Files => spec_files_gossip(
                        *old(self),
                        *final(self),
                        source@,
                        data@,
                        actions@,
                    ),
                    Topic::Other => *final(self) == *old(self) && actions@.len() == 0,
                },
                NetworkEvent::InboundRequest { payload, channel } => spec_inbound_request(
                    *old(self),
                    *final(self),
                    payload@,
                    channel,
                    actions@,
                ),
                NetworkEvent::InboundResponse { request_id, payload } => spec_inbound_response(
                    *old(self),
                    *final(self),
                    request_id,
                    payload@,
                    actions@,
                ),
                NetworkEvent::OutboundFailure { request_id, error } => spec_outbound_failure(
                    *old(self),
                    *final(self),
                    request_id,
                    error@,
                    actions@,
                ),
                NetworkEvent::PeerDiscovered { peer, address } => spec_peer_discovered(
                    *old(self),
                    *final(self),
                    peer@,
                    address@,
                    actions@,
                ),
            },
    {
        let mut actions: Vec<Action> = Vec::new();
        match event {
            NetworkEvent::Identified { peer, info } => {
                actions.push(Action::Emit { event: Event::Identify { peer, info } });
            },
            NetworkEvent::ConnectionEstablished { peer, endpoint } => {
                match self.pending_dial.remove(&peer) {
                    Some(reply) => {
                        actions.push(Action::ResolveUnit { reply, result: Ok(()) });
                    },
                    None => {},
                }
                actions.push(Action::Emit { event: Event::ConnectionEstablished { endpoint } });
            },
            NetworkEvent::NewListenAddr { address } => {
                actions.push(Action::Emit { event: Event::NewListenAddr { address } });
            },
            NetworkEvent::GossipMessage { source, topic, message_id, data } => {
                match topic {
                    Topic::Chat => {
                        actions.push(Action::Emit {
                            event: Event::NewMessage { peer: source, message_id, message: data },
                        });
                    },
                    Topic::Files => {
                        match decode_announcement(&data) {
                            None => {
                                // Malformed announcement: a non-fatal
                                // protocol violation, discarded.
                            },
                            Some(ann) => {
                                let ghost addr_views = views_of_addrs(ann.addrs@);
                                let mut i: usize = 0;
                                while i < ann.addrs.len()
                                    invariant
                                        i <= ann.addrs@.len(),
                                        actions@.len() == i,
                                        addr_views == views_of_addrs(ann.addrs@),
                                        forall|j: int| 0 <= j < i ==> is_add_address(
                                            #[trigger] actions@[j],
                                            source@,
                                            addr_views[j],
                                        ),
                                    decreases ann.addrs@.len() - i,
                                {
                                    actions.push(Action::AddAddress {
                                        peer: clone_bytes(&source),
                                        address: clone_bytes(&ann.addrs[i]),
                                    });
                                    i = i + 1;
                                }
                                if !self.known_files.contains(&ann.filename) {
                                    let file_copy = clone_bytes(&ann.filename);
                                    let peer_copy = clone_bytes(&source);
                                    self.known_files.insert(ann.filename, source);
                                    actions.push(Action::Emit {
                                        event: Event::NewProvider {
                                            peer: peer_copy,
                                            file: file_copy,
                                        },
                                    });
                                }
                            },
                        }
                    },
                    Topic::Other => {},
                }
            },
            NetworkEvent::InboundRequest { payload, channel } => {
                let found = match self.provided_files.get(&payload) {
                    Some(path) => Some(clone_bytes(path)),
                    None => None,
                };
                match found {
                    Some(path) => {
                        actions.push(Action::ReadAndRespond { path, channel });
                    },
                    None => {
                        // Unknown file: drop the request silently; no
                        // negative acknowledgement is ever sent.
                    },
                }
            },
            NetworkEvent::InboundResponse { request_id, payload } => {
                match self.pending_requests.remove(&request_id) {
                    Some(reply) => {
                        actions.push(Action::ResolveBytes { reply, result: Ok(payload) });
                    },
                    None => {
                        // No matching pending request: a bookkeeping
                        // violation; the loop must survive it.
                    },
                }
            },
            NetworkEvent::OutboundFailure { request_id, error } => {
                match self.pending_requests.remove(&request_id) {
                    Some(reply) => {
                        actions.push(Action::ResolveBytes {
                            reply,
                            result: Err(ActorError::Engine { message: error }),
                        });
                    },
                    None => {},
                }
            },
            NetworkEvent::PeerDiscovered { peer, address } => {
                actions.push(Action::AddAddress { peer: clone_bytes(&peer), address });
                if !self.known_peers.contains(&peer) {
                    let peer_copy = clone_bytes(&peer);
                    self.known_peers.insert(peer, ());
                    actions.push(Action::DialDiscovered { peer: peer_copy });
                }
            },
        }
        actions
    }

    /// React to one republish timer tick: one announcement per provided
    /// file, naming the node's currently bound listen addresses.
    pub fn republish_file(&self, listen_addrs: &Vec<Vec<u8>>) -> (actions: Vec<Action>)
        requires
            self.wf(),
        ensures
            actions@.len() == self.provided_files.key_seq().len(),
            forall|i: int| 0 <= i < actions@.len() ==> is_publish_announcement(
                #[trigger] actions@[i],
                spec_encode_announcement(
                    self.provided_files.key_seq()[i],
                    views_of_addrs(listen_addrs@),
                ),
            ),
    {
        let mut actions: Vec<Action> = Vec::new();
        let n = self.provided_files.len();
        let mut i: usize = 0;
        while i < n
            invariant
                self.wf(),
                i <= n,
                n == self.provided_files.key_seq().len(),
                actions@.len() == i,
                forall|j: int| 0 <= j < i ==> is_publish_announcement(
                    #[trigger] actions@[j],
                    spec_encode_announcement(
                        self.provided_files.key_seq()[j],
                        views_of_addrs(listen_addrs@),
                    ),
                ),
            decreases n - i,
        {
            let filename = clone_bytes(self.provided_files.key_at(i));
            let addrs = clone_addrs(listen_addrs);
            let announcement = FileAnnouncement { filename, addrs };
            let payload = encode_announcement(&announcement);
            actions.push(Action::PublishAnnouncement { payload });
            i = i + 1;
        }
        actions
    }
}

// ---------------------------------------------------------------------
// Laws of the actor, stated over the same transition functions the
// handlers' contracts use.
// ---------------------------------------------------------------------

/// First writer wins: with no binding for `file`, the first announcement
/// observed creates the binding and is the one that announces a new
/// provider; a later announcement for the same filename — whichever peer
/// it names — changes no state and announces nothing.
pub proof fn lemma_first_writer_wins(
    m: Map<Seq<u8>, Seq<u8>>,
    file: Seq<u8>,
    first: Seq<u8>,
    second: Seq<u8>,
)
    requires
        !m.contains_key(file),
    ensures
        ({
            let m1 = spec_register_provider(m, file, first);
            let m2 = spec_register_provider(m1, file, second);
            &&& spec_provider_is_new(m, file)
            &&& !spec_provider_is_new(m1, file)
            &&& m1.contains_key(file) && m1[file] == first
            &&& m2 == m1
        }),
{
}

/// Request correlation: dispatching under a fresh correlation id parks
/// exactly one reply; the matching response or failure finds it and,
/// once the entry is removed, nothing is left for a second resolution.
pub proof fn lemma_request_resolved_once(m: Map<u64, u64>, request_id: u64, reply: u64)
    requires
        !m.contains_key(request_id),
    ensures
        ({
            let step = spec_dispatch_step(m, request_id, reply);
            &&& step.1
            &&& step.0.contains_key(request_id) && step.0[request_id] == reply
            &&& !step.0.remove(request_id).contains_key(request_id)
        }),
{
}

/// Dial dedup: two dial commands for the same still-pending peer start
/// exactly one dial attempt, and the second leaves the table unchanged.
pub proof fn lemma_dial_dedup(m: Map<Seq<u8>, u64>, peer: Seq<u8>, reply1: u64, reply2: u64)
    requires
        !m.contains_key(peer),
    ensures
        ({
            let s1 = spec_dial_step(m, peer, reply1);
            let s2 = spec_dial_step(s1.0, peer, reply2);
            &&& s1.1
            &&& !s2.1
            &&& s2.0 == s1.0
        }),
{
}

/// Relate the terminal-component spec to an explicit cut point: when no
/// separator occurs at or after `cut`, and `cut` is either the start or
/// just past a separator, the key is the suffix from `cut`.
proof fn lemma_file_key_suffix(p: Seq<u8>, cut: int)
    requires
        0 <= cut <= p.len(),
        cut == 0 || p[cut - 1] == PATH_SEPARATOR,
        forall|j: int| cut <= j < p.len() ==> p[j] != PATH_SEPARATOR,
    ensures
        spec_file_key(p) == p.subrange(cut, p.len() as int),
    decreases p.len(),
{
    if p.len() == cut {
        if p.len() == 0 {
            assert(spec_file_key(p) =~= p.subrange(cut, p.len() as int));
        } else {
            assert(p.last() == p[cut - 1]);
            assert(spec_file_key(p) =~= p.subrange(cut, p.len() as int));
        }
    } else {
        assert(p.last() != PATH_SEPARATOR);
        assert(forall|j: int| cut <= j < p.drop_last().len() ==> p.drop_last()[j] != PATH_SEPARATOR);
        if cut > 0 {
            assert(p.drop_last()[cut - 1] == PATH_SEPARATOR);
        }
        lemma_file_key_suffix(p.drop_last(), cut);
        assert(p.drop_last().subrange(cut, p.drop_last().len() as int).push(p.last())
            =~= p.subrange(cut, p.len() as int));
    }
}

/// The registration key of a path: the bytes after its last separator.
pub fn file_key_of(path: &Vec<u8>) -> (key: Vec<u8>)
    ensures
        key@ == spec_file_key(path@),
{
    let mut cut: usize = 0;
    let mut i: usize = 0;
    while i < path.len()
        invariant
            cut <= i <= path@.len(),
            cut == 0 || path@[cut - 1] == PATH_SEPARATOR,
            forall|j: int| cut <= j < i ==> path@[j] != PATH_SEPARATOR,
        decreases path@.len() - i,
    {
        if path[i] == PATH_SEPARATOR {
            cut = i + 1;
        }
        i = i + 1;
    }
    proof {
        lemma_file_key_suffix(path@, cut as int);
    }
    crate::varint::copy_range(path, cut, path.len())
}

} // verus!
