use file_share::announce::{encode_announcement, FileAnnouncement};
use file_share::codec::Codec;
use file_share::event_loop::{Action, ActorError, Command, Event, EventLoop, NetworkEvent, Topic};

fn files_gossip(source: &[u8], data: Vec<u8>) -> NetworkEvent {
    NetworkEvent::GossipMessage {
        source: source.to_vec(),
        topic: Topic::Files,
        message_id: b"mid".to_vec(),
        data,
    }
}

fn announcement_bytes(filename: &[u8], addrs: Vec<Vec<u8>>) -> Vec<u8> {
    encode_announcement(&FileAnnouncement { filename: filename.to_vec(), addrs })
}

fn count_new_provider(actions: &[Action]) -> usize {
    actions
        .iter()
        .filter(|a| matches!(a, Action::Emit { event: Event::NewProvider { .. } }))
        .count()
}

#[test]
fn first_writer_wins_first_order() {
    let mut actor = EventLoop::new();
    let first = actor.handle_event(files_gossip(b"peer-one", announcement_bytes(b"f.txt", vec![])));
    assert_eq!(count_new_provider(&first), 1);
    assert_eq!(
        first[0],
        Action::Emit {
            event: Event::NewProvider { peer: b"peer-one".to_vec(), file: b"f.txt".to_vec() }
        }
    );
    let second =
        actor.handle_event(files_gossip(b"peer-two", announcement_bytes(b"f.txt", vec![])));
    assert_eq!(count_new_provider(&second), 0);
    assert!(second.is_empty());
    // The binding still points at the first announcer.
    let actions = actor.handle_command(Command::Get { file_name: b"f.txt".to_vec(), reply: 1 });
    assert_eq!(
        actions[0],
        Action::SendRequest { peer: b"peer-one".to_vec(), payload: b"f.txt".to_vec(), reply: 1 }
    );
}

#[test]
fn first_writer_wins_other_order() {
    let mut actor = EventLoop::new();
    let first = actor.handle_event(files_gossip(b"peer-two", announcement_bytes(b"f.txt", vec![])));
    assert_eq!(count_new_provider(&first), 1);
    let second =
        actor.handle_event(files_gossip(b"peer-one", announcement_bytes(b"f.txt", vec![])));
    assert_eq!(count_new_provider(&second), 0);
    let actions = actor.handle_command(Command::Get { file_name: b"f.txt".to_vec(), reply: 1 });
    assert_eq!(
        actions[0],
        Action::SendRequest { peer: b"peer-two".to_vec(), payload: b"f.txt".to_vec(), reply: 1 }
    );
}

#[test]
fn announcement_addresses_are_registered() {
    let mut actor = EventLoop::new();
    let addrs = vec![b"/ip4/1.2.3.4/tcp/1".to_vec(), b"/ip4/5.6.7.8/tcp/2".to_vec()];
    let actions = actor.handle_event(files_gossip(b"p", announcement_bytes(b"f", addrs.clone())));
    assert_eq!(actions.len(), 3);
    assert_eq!(
        actions[0],
        Action::AddAddress { peer: b"p".to_vec(), address: addrs[0].clone() }
    );
    assert_eq!(
        actions[1],
        Action::AddAddress { peer: b"p".to_vec(), address: addrs[1].clone() }
    );
    assert!(matches!(actions[2], Action::Emit { event: Event::NewProvider { .. } }));
}

#[test]
fn malformed_announcement_is_discarded() {
    let mut actor = EventLoop::new();
    let actions = actor.handle_event(files_gossip(b"p", vec![2, 26, 0]));
    assert!(actions.is_empty());
}

#[test]
fn dial_dedup_starts_one_attempt() {
    let mut actor = EventLoop::new();
    let first = actor.handle_command(Command::Dial { peer_id: b"peer".to_vec(), reply: 1 });
    assert_eq!(first, vec![Action::StartDial { peer: b"peer".to_vec() }]);
    let second = actor.handle_command(Command::Dial { peer_id: b"peer".to_vec(), reply: 2 });
    assert!(second.is_empty());
}

#[test]
fn failed_dial_resolves_with_engine_error_and_allows_redial() {
    let mut actor = EventLoop::new();
    actor.handle_command(Command::Dial { peer_id: b"peer".to_vec(), reply: 1 });
    let actions = actor.handle_dial_outcome(&b"peer".to_vec(), false, "refused".to_string());
    assert_eq!(
        actions,
        vec![Action::ResolveUnit {
            reply: 1,
            result: Err(ActorError::Engine { message: "refused".to_string() }),
        }]
    );
    // The pending entry is gone, so a new dial may start.
    let redial = actor.handle_command(Command::Dial { peer_id: b"peer".to_vec(), reply: 3 });
    assert_eq!(redial, vec![Action::StartDial { peer: b"peer".to_vec() }]);
}

#[test]
fn connection_established_resolves_pending_dial() {
    let mut actor = EventLoop::new();
    actor.handle_command(Command::Dial { peer_id: b"peer".to_vec(), reply: 9 });
    actor.handle_dial_outcome(&b"peer".to_vec(), true, String::new());
    let actions = actor.handle_event(NetworkEvent::ConnectionEstablished {
        peer: b"peer".to_vec(),
        endpoint: b"/ip4/9.9.9.9/tcp/4".to_vec(),
    });
    assert_eq!(actions.len(), 2);
    assert_eq!(actions[0], Action::ResolveUnit { reply: 9, result: Ok(()) });
    assert_eq!(
        actions[1],
        Action::Emit {
            event: Event::ConnectionEstablished { endpoint: b"/ip4/9.9.9.9/tcp/4".to_vec() }
        }
    );
    // A connection with no pending dial only forwards the event.
    let other = actor.handle_event(NetworkEvent::ConnectionEstablished {
        peer: b"other".to_vec(),
        endpoint: b"e".to_vec(),
    });
    assert_eq!(other.len(), 1);
}

#[test]
fn get_without_provider_fails_immediately() {
    let mut actor = EventLoop::new();
    let actions =
        actor.handle_command(Command::Get { file_name: b"missing.txt".to_vec(), reply: 5 });
    assert_eq!(
        actions,
        vec![Action::ResolveBytes {
            reply: 5,
            result: Err(ActorError::NoProvider { file_name: b"missing.txt".to_vec() }),
        }]
    );
    // No request was dispatched on behalf of this call.
    assert!(!actions.iter().any(|a| matches!(a, Action::SendRequest { .. })));
}

#[test]
fn request_correlation_resolves_exactly_once() {
    let mut actor = EventLoop::new();
    actor.handle_event(files_gossip(b"prov", announcement_bytes(b"f", vec![])));
    let actions = actor.handle_command(Command::Get { file_name: b"f".to_vec(), reply: 11 });
    assert!(matches!(actions[0], Action::SendRequest { .. }));
    assert!(actor.handle_request_dispatched(42, 11));
    // A colliding correlation id is refused and changes nothing.
    assert!(!actor.handle_request_dispatched(42, 99));
    let resolved = actor.handle_event(NetworkEvent::InboundResponse {
        request_id: 42,
        payload: b"bytes".to_vec(),
    });
    assert_eq!(resolved, vec![Action::ResolveBytes { reply: 11, result: Ok(b"bytes".to_vec()) }]);
    // The second resolution attempt finds nothing.
    let again = actor.handle_event(NetworkEvent::InboundResponse {
        request_id: 42,
        payload: b"bytes".to_vec(),
    });
    assert!(again.is_empty());
}

#[test]
fn outbound_failure_resolves_with_engine_error() {
    let mut actor = EventLoop::new();
    assert!(actor.handle_request_dispatched(7, 70));
    let actions = actor.handle_event(NetworkEvent::OutboundFailure {
        request_id: 7,
        error: "timeout".to_string(),
    });
    assert_eq!(
        actions,
        vec![Action::ResolveBytes {
            reply: 70,
            result: Err(ActorError::Engine { message: "timeout".to_string() }),
        }]
    );
    let again = actor.handle_event(NetworkEvent::OutboundFailure {
        request_id: 7,
        error: "timeout".to_string(),
    });
    assert!(again.is_empty());
}

#[test]
fn provide_registers_under_terminal_component() {
    let mut actor = EventLoop::new();
    let queued =
        actor.handle_command(Command::Provide { file_name: b"dir/sub/name.txt".to_vec(), reply: 2 });
    assert_eq!(
        queued,
        vec![Action::CheckFile { path: b"dir/sub/name.txt".to_vec(), reply: 2 }]
    );
    let actions = actor.handle_provide_outcome(b"dir/sub/name.txt".to_vec(), true, 2);
    assert_eq!(actions, vec![Action::ResolveUnit { reply: 2, result: Ok(()) }]);
    // An inbound request for the terminal component finds the full path.
    let serve = actor.handle_event(NetworkEvent::InboundRequest {
        payload: b"name.txt".to_vec(),
        channel: 3,
    });
    assert_eq!(
        serve,
        vec![Action::ReadAndRespond { path: b"dir/sub/name.txt".to_vec(), channel: 3 }]
    );
}

#[test]
fn provide_unopenable_path_fails() {
    let mut actor = EventLoop::new();
    let actions = actor.handle_provide_outcome(b"no/such/file".to_vec(), false, 8);
    assert_eq!(
        actions,
        vec![Action::ResolveUnit {
            reply: 8,
            result: Err(ActorError::NotOpenable { path: b"no/such/file".to_vec() }),
        }]
    );
}

#[test]
fn provide_path_without_filename_fails() {
    let mut actor = EventLoop::new();
    let actions = actor.handle_provide_outcome(b"dir/".to_vec(), true, 8);
    assert_eq!(
        actions,
        vec![Action::ResolveUnit {
            reply: 8,
            result: Err(ActorError::NoFileName { path: b"dir/".to_vec() }),
        }]
    );
}

#[test]
fn unknown_inbound_request_is_dropped_silently() {
    let mut actor = EventLoop::new();
    let actions = actor.handle_event(NetworkEvent::InboundRequest {
        payload: b"unknown".to_vec(),
        channel: 1,
    });
    assert!(actions.is_empty());
}

#[test]
fn chat_gossip_is_forwarded() {
    let mut actor = EventLoop::new();
    let actions = actor.handle_event(NetworkEvent::GossipMessage {
        source: b"peer".to_vec(),
        topic: Topic::Chat,
        message_id: b"m1".to_vec(),
        data: b"hi there".to_vec(),
    });
    assert_eq!(
        actions,
        vec![Action::Emit {
            event: Event::NewMessage {
                peer: b"peer".to_vec(),
                message_id: b"m1".to_vec(),
                message: b"hi there".to_vec(),
            }
        }]
    );
}

#[test]
fn other_topic_gossip_is_ignored() {
    let mut actor = EventLoop::new();
    let actions = actor.handle_event(NetworkEvent::GossipMessage {
        source: b"peer".to_vec(),
        topic: Topic::Other,
        message_id: b"m1".to_vec(),
        data: b"x".to_vec(),
    });
    assert!(actions.is_empty());
}

#[test]
fn identify_and_listen_addr_are_forwarded() {
    let mut actor = EventLoop::new();
    let identify = actor.handle_event(NetworkEvent::Identified {
        peer: b"peer".to_vec(),
        info: b"agent/1.0".to_vec(),
    });
    assert_eq!(
        identify,
        vec![Action::Emit {
            event: Event::Identify { peer: b"peer".to_vec(), info: b"agent/1.0".to_vec() }
        }]
    );
    let listen = actor.handle_event(NetworkEvent::NewListenAddr {
        address: b"/ip4/0.0.0.0/tcp/7".to_vec(),
    });
    assert_eq!(
        listen,
        vec![Action::Emit {
            event: Event::NewListenAddr { address: b"/ip4/0.0.0.0/tcp/7".to_vec() }
        }]
    );
}

#[test]
fn discovered_peer_is_dialed_once() {
    let mut actor = EventLoop::new();
    let first = actor.handle_event(NetworkEvent::PeerDiscovered {
        peer: b"peer".to_vec(),
        address: b"/ip4/1.1.1.1/tcp/1".to_vec(),
    });
    assert_eq!(first.len(), 2);
    assert_eq!(
        first[0],
        Action::AddAddress { peer: b"peer".to_vec(), address: b"/ip4/1.1.1.1/tcp/1".to_vec() }
    );
    assert_eq!(first[1], Action::DialDiscovered { peer: b"peer".to_vec() });
    let second = actor.handle_event(NetworkEvent::PeerDiscovered {
        peer: b"peer".to_vec(),
        address: b"/ip4/2.2.2.2/tcp/2".to_vec(),
    });
    assert_eq!(second.len(), 1);
    assert!(matches!(second[0], Action::AddAddress { .. }));
}

#[test]
fn publish_outcome_maps_to_resolution() {
    let actor = EventLoop::new();
    assert_eq!(
        actor.handle_publish_outcome(4, true, String::new()),
        Action::ResolveUnit { reply: 4, result: Ok(()) }
    );
    assert_eq!(
        actor.handle_publish_outcome(4, false, "no peers".to_string()),
        Action::ResolveUnit {
            reply: 4,
            result: Err(ActorError::Engine { message: "no peers".to_string() }),
        }
    );
}

#[test]
fn message_command_publishes_on_chat_topic() {
    let mut actor = EventLoop::new();
    let actions =
        actor.handle_command(Command::Message { message: b"hello".to_vec(), reply: 6 });
    assert_eq!(actions, vec![Action::PublishChat { payload: b"hello".to_vec(), reply: 6 }]);
}

#[test]
fn republish_announces_every_provided_file() {
    let mut actor = EventLoop::new();
    actor.handle_provide_outcome(b"a/one.txt".to_vec(), true, 1);
    actor.handle_provide_outcome(b"b/two.txt".to_vec(), true, 2);
    let listen_addrs = vec![b"/ip4/3.3.3.3/tcp/3".to_vec()];
    let actions = actor.republish_file(&listen_addrs);
    assert_eq!(actions.len(), 2);
    let expected_one = encode_announcement(&FileAnnouncement {
        filename: b"one.txt".to_vec(),
        addrs: listen_addrs.clone(),
    });
    let expected_two = encode_announcement(&FileAnnouncement {
        filename: b"two.txt".to_vec(),
        addrs: listen_addrs.clone(),
    });
    assert_eq!(actions[0], Action::PublishAnnouncement { payload: expected_one });
    assert_eq!(actions[1], Action::PublishAnnouncement { payload: expected_two });
}

#[test]
fn end_to_end_provide_announce_get() {
    // Node A provides a 12-byte file; node B learns of it from the
    // announcement and fetches exactly those bytes.
    let file_content = b"hello world!".to_vec();
    assert_eq!(file_content.len(), 12);

    let mut node_a = EventLoop::new();
    let mut node_b = EventLoop::new();
    let mut codec = Codec;

    // A: provide, probe succeeds, republish tick fires.
    node_a.handle_command(Command::Provide { file_name: b"files/report.pdf".to_vec(), reply: 1 });
    let resolved = node_a.handle_provide_outcome(b"files/report.pdf".to_vec(), true, 1);
    assert_eq!(resolved, vec![Action::ResolveUnit { reply: 1, result: Ok(()) }]);
    let listen_addrs = vec![b"/ip4/10.0.0.1/tcp/4001".to_vec()];
    let published = node_a.republish_file(&listen_addrs);
    let payload = match &published[0] {
        Action::PublishAnnouncement { payload } => payload.clone(),
        other => panic!("expected an announcement, got {:?}", other),
    };

    // B: the gossip payload arrives from peer A.
    let actions = node_b.handle_event(files_gossip(b"peer-a", payload));
    assert_eq!(
        actions[0],
        Action::AddAddress { peer: b"peer-a".to_vec(), address: listen_addrs[0].clone() }
    );
    assert_eq!(
        actions[1],
        Action::Emit {
            event: Event::NewProvider { peer: b"peer-a".to_vec(), file: b"report.pdf".to_vec() }
        }
    );

    // B: get the file; the actor dispatches one request to peer A.
    let get = node_b.handle_command(Command::Get { file_name: b"report.pdf".to_vec(), reply: 2 });
    let (peer, request_payload) = match &get[0] {
        Action::SendRequest { peer, payload, reply: 2 } => (peer.clone(), payload.clone()),
        other => panic!("expected a request dispatch, got {:?}", other),
    };
    assert_eq!(peer, b"peer-a".to_vec());
    assert!(node_b.handle_request_dispatched(77, 2));

    // The request travels framed; A reads it back off the stream.
    let request_frame = codec.write_request(&request_payload);
    let request_seen = codec.read_request(&request_frame).expect("request frame decodes");
    assert_eq!(request_seen, b"report.pdf".to_vec());

    // A: the inbound request names a provided file; the runtime reads
    // the path and responds over the same correlation channel.
    let serve = node_a.handle_event(NetworkEvent::InboundRequest {
        payload: request_seen,
        channel: 5,
    });
    assert_eq!(
        serve,
        vec![Action::ReadAndRespond { path: b"files/report.pdf".to_vec(), channel: 5 }]
    );

    // The response travels framed; B reads it and resolves the call.
    let response_frame = codec.write_response(&file_content);
    let response_seen = codec.read_response(&response_frame).expect("response frame decodes");
    let resolved = node_b.handle_event(NetworkEvent::InboundResponse {
        request_id: 77,
        payload: response_seen,
    });
    assert_eq!(
        resolved,
        vec![Action::ResolveBytes { reply: 2, result: Ok(b"hello world!".to_vec()) }]
    );
}
