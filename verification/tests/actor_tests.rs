use swapbytes::actor::handle_event;
use swapbytes::actor::plan_command;
use swapbytes::actor::room_store_key;
use swapbytes::actor::Command;
use swapbytes::actor::CommandAction;
use swapbytes::actor::CommandContext;
use swapbytes::actor::NetAction;
use swapbytes::actor::NetEvent;
use swapbytes::directory::Directory;

fn ctx(self_id: &str) -> CommandContext {
    CommandContext {
        self_peer_id: self_id.to_string(),
        room_record: None,
        file_bytes: None,
    }
}

fn ready_directory(self_id: &str) -> Directory {
    let mut d = Directory::new();
    d.set_self_peer_id(self_id.to_string());
    d
}

#[test]
fn listening_translates_one_to_one() {
    let act = plan_command(
        Command::StartListening { addr: "/ip4/0.0.0.0/tcp/0".to_string() },
        ctx("me"),
    );
    match act {
        CommandAction::Listen { addr } => assert_eq!(addr, "/ip4/0.0.0.0/tcp/0"),
        _ => panic!("expected a listen action"),
    }
}

#[test]
fn send_message_publishes_the_raw_bytes() {
    let act = plan_command(
        Command::SendMessage { message: "hi there".to_string(), topic: "global".to_string() },
        ctx("me"),
    );
    match act {
        CommandAction::Publish { topic, data } => {
            assert_eq!(topic, "global");
            assert_eq!(data, b"hi there".to_vec());
        },
        _ => panic!("expected a publish action"),
    }
}

#[test]
fn request_file_targets_the_peer() {
    let act = plan_command(
        Command::RequestFile { request: "notes.txt".to_string(), peer: "B".to_string() },
        ctx("me"),
    );
    match act {
        CommandAction::SendRequest { peer, request } => {
            assert_eq!(peer, "B");
            assert_eq!(request, "notes.txt");
        },
        _ => panic!("expected a request action"),
    }
}

#[test]
fn respond_file_carries_the_read_bytes() {
    let mut c = ctx("me");
    c.file_bytes = Some(vec![1, 2, 3]);
    let act = plan_command(
        Command::RespondFile {
            filename: "notes.txt".to_string(),
            filepath: "notes.txt".to_string(),
            reply: 9,
        },
        c,
    );
    match act {
        CommandAction::SendResponse { reply, filename, data } => {
            assert_eq!(reply, 9);
            assert_eq!(filename, "notes.txt");
            assert_eq!(data, vec![1, 2, 3]);
        },
        _ => panic!("expected a response action"),
    }
}

#[test]
fn respond_file_degrades_to_an_empty_payload() {
    let act = plan_command(
        Command::RespondFile {
            filename: "gone.txt".to_string(),
            filepath: "gone.txt".to_string(),
            reply: 9,
        },
        ctx("me"),
    );
    match act {
        CommandAction::SendResponse { data, .. } => assert!(data.is_empty()),
        _ => panic!("expected a response action"),
    }
}

#[test]
fn push_username_writes_under_the_own_peer_id() {
    let act = plan_command(Command::PushUsername { username: "alice".to_string() }, ctx("me"));
    match act {
        CommandAction::PutRecord { key, value } => {
            assert_eq!(key, "me");
            let name: String = serde_cbor::from_slice(&value).expect("username record decodes");
            assert_eq!(name, "alice");
        },
        _ => panic!("expected a record write"),
    }
}

#[test]
fn get_username_looks_up_the_peer_key() {
    let act = plan_command(Command::GetUsername { peer_id: "B".to_string() }, ctx("me"));
    match act {
        CommandAction::GetRecord { key } => assert_eq!(key, "B"),
        _ => panic!("expected a record lookup"),
    }
}

#[test]
fn get_rooms_looks_up_the_well_known_key() {
    let act = plan_command(Command::GetRooms, ctx("me"));
    match act {
        CommandAction::GetRecord { key } => assert_eq!(key, room_store_key()),
        _ => panic!("expected a record lookup"),
    }
}

#[test]
fn create_room_without_a_replica_writes_a_singleton_list() {
    let act = plan_command(Command::CreateRoom { chat_name: "retro".to_string() }, ctx("me"));
    match act {
        CommandAction::PutRecord { key, value } => {
            assert_eq!(key, "room_store");
            let rooms: Vec<String> = serde_cbor::from_slice(&value).expect("room list decodes");
            assert_eq!(rooms, vec!["retro".to_string()]);
        },
        _ => panic!("expected a record write"),
    }
}

#[test]
fn create_room_appends_to_an_existing_list() {
    let existing = serde_cbor::to_vec(&vec!["global".to_string()]).unwrap();
    let mut c = ctx("me");
    c.room_record = Some(existing);
    let act = plan_command(Command::CreateRoom { chat_name: "retro".to_string() }, c);
    match act {
        CommandAction::PutRecord { key, value } => {
            assert_eq!(key, "room_store");
            let rooms: Vec<String> = serde_cbor::from_slice(&value).unwrap();
            assert_eq!(rooms, vec!["global".to_string(), "retro".to_string()]);
        },
        _ => panic!("expected a record write"),
    }
}

#[test]
fn create_room_twice_suppresses_the_duplicate() {
    // first write from an empty replica
    let first = plan_command(Command::CreateRoom { chat_name: "retro".to_string() }, ctx("me"));
    let written = match first {
        CommandAction::PutRecord { value, .. } => value,
        _ => panic!("expected a record write"),
    };
    // the second create reads the first write back and drops out
    let mut c = ctx("me");
    c.room_record = Some(written.clone());
    let second = plan_command(Command::CreateRoom { chat_name: "retro".to_string() }, c);
    assert!(matches!(second, CommandAction::Nothing));
    let rooms: Vec<String> = serde_cbor::from_slice(&written).unwrap();
    assert_eq!(rooms.iter().filter(|r| r.as_str() == "retro").count(), 1);
}

#[test]
fn create_room_drops_out_on_an_undecodable_replica() {
    let mut c = ctx("me");
    c.room_record = Some(vec![0xff, 0xff, 0xff]);
    let act = plan_command(Command::CreateRoom { chat_name: "retro".to_string() }, c);
    assert!(matches!(act, CommandAction::Nothing));
}

#[test]
fn discovery_event_registers_and_subscribes() {
    let mut d = ready_directory("A");
    let acts = handle_event(
        &mut d,
        NetEvent::Discovered { peer: "B".to_string(), addr: "/ip4/10.0.0.2/tcp/4".to_string() },
    );
    assert_eq!(acts.len(), 3);
    assert!(matches!(&acts[0], NetAction::AddExplicitPeer { peer } if peer == "B"));
    assert!(
        matches!(&acts[1], NetAction::AddAddress { peer, addr }
            if peer == "B" && addr == "/ip4/10.0.0.2/tcp/4")
    );
    assert!(matches!(&acts[2], NetAction::Subscribe { topic } if topic == "A_B"));
    assert_eq!(d.peers, vec!["B"]);
}

#[test]
fn pushed_username_resolves_after_lookup() {
    // write the username record, then feed the lookup result back in
    let mut d = ready_directory("me");
    d.peer_discovered(&"me".to_string());
    let act = plan_command(Command::PushUsername { username: "alice".to_string() }, ctx("me"));
    let (key, value) = match act {
        CommandAction::PutRecord { key, value } => (key, value),
        _ => panic!("expected a record write"),
    };
    let acts = handle_event(&mut d, NetEvent::RecordFound { key, value });
    assert!(acts.is_empty());
    let name = d.usernames.get(&"me".to_string()).expect("username resolved");
    assert_eq!(name, "alice");
    assert!(!d.peers_awaiting_username.contains(&"me".to_string()));
}

#[test]
fn fetched_room_list_merges_exactly_once() {
    let mut d = ready_directory("me");
    let act = plan_command(Command::CreateRoom { chat_name: "retro".to_string() }, ctx("me"));
    let value = match act {
        CommandAction::PutRecord { value, .. } => value,
        _ => panic!("expected a record write"),
    };
    let acts = handle_event(
        &mut d,
        NetEvent::RecordFound { key: "room_store".to_string(), value: value.clone() },
    );
    assert_eq!(acts.len(), 1);
    assert!(matches!(&acts[0], NetAction::Subscribe { topic } if topic == "retro"));
    assert_eq!(d.rooms.iter().filter(|r| r.as_str() == "retro").count(), 1);
    let log = d.public_messages.get(&"retro".to_string()).expect("empty log created");
    assert!(log.is_empty());
    // merging the same list again changes nothing
    let again = handle_event(
        &mut d,
        NetEvent::RecordFound { key: "room_store".to_string(), value },
    );
    assert!(again.is_empty());
    assert_eq!(d.rooms.iter().filter(|r| r.as_str() == "retro").count(), 1);
}

#[test]
fn undecodable_record_changes_nothing() {
    let mut d = ready_directory("me");
    let peers_before = d.peers.clone();
    let rooms_before = d.rooms.clone();
    let acts = handle_event(
        &mut d,
        NetEvent::RecordFound { key: "me".to_string(), value: vec![0xff, 0x00, 0x01] },
    );
    assert!(acts.is_empty());
    assert_eq!(d.peers, peers_before);
    assert_eq!(d.rooms, rooms_before);
    assert!(d.usernames.get(&"me".to_string()).is_none());
}

#[test]
fn inbound_request_queues_for_acceptance() {
    let mut d = ready_directory("B");
    let acts = handle_event(
        &mut d,
        NetEvent::RequestReceived { peer: "A".to_string(), request: "notes.txt".to_string(), reply: 3 },
    );
    assert!(acts.is_empty());
    assert_eq!(d.pending_file_requests.len(), 1);
    assert_eq!(d.pending_file_requests[0].peer_id, "A");
    assert_eq!(d.pending_file_requests[0].request_string, "notes.txt");
}

#[test]
fn inbound_response_is_saved_under_a_prefixed_name() {
    let mut d = ready_directory("A");
    let acts = handle_event(
        &mut d,
        NetEvent::ResponseReceived { filename: "notes.txt".to_string(), data: vec![4, 5] },
    );
    assert_eq!(acts.len(), 1);
    match &acts[0] {
        NetAction::SaveFile { filename, data } => {
            assert_eq!(filename, "new_notes.txt");
            assert_eq!(data, &vec![4, 5]);
        },
        _ => panic!("expected a save action"),
    }
}

#[test]
fn message_event_reaches_the_room_log() {
    let mut d = ready_directory("A");
    let acts = handle_event(
        &mut d,
        NetEvent::Message { topic: "global".to_string(), data: b"bob: hey".to_vec() },
    );
    assert!(acts.is_empty());
    let log = d.public_messages.get(&"global".to_string()).unwrap();
    assert_eq!(log, &vec!["bob: hey".to_string()]);
}

#[test]
fn irrelevant_events_are_dropped() {
    let mut d = ready_directory("A");
    let before = d.rooms.clone();
    assert!(handle_event(&mut d, NetEvent::LookupFailed).is_empty());
    assert!(handle_event(&mut d, NetEvent::RecordStored { key: "k".to_string() }).is_empty());
    assert!(handle_event(&mut d, NetEvent::InboundFailure).is_empty());
    assert!(handle_event(&mut d, NetEvent::OutboundFailure).is_empty());
    assert!(handle_event(&mut d, NetEvent::Other).is_empty());
    assert_eq!(d.rooms, before);
}

#[test]
fn new_listen_addr_registers_the_own_address() {
    let mut d = ready_directory("me");
    let acts = handle_event(
        &mut d,
        NetEvent::NewListenAddr { addr: "/ip4/127.0.0.1/tcp/9".to_string() },
    );
    assert_eq!(acts.len(), 1);
    assert!(
        matches!(&acts[0], NetAction::AddAddress { peer, addr }
            if peer == "me" && addr == "/ip4/127.0.0.1/tcp/9")
    );
}

#[test]
fn file_exchange_round_trip() {
    // B receives A's request, the user accepts it, and the planned
    // response carries the file bytes back under A's requested name.
    let mut b = ready_directory("B");
    handle_event(
        &mut b,
        NetEvent::RequestReceived { peer: "A".to_string(), request: "notes.txt".to_string(), reply: 11 },
    );
    let mut b_app = swapbytes::state::App::new();
    b_app.directory = b;
    let respond = swapbytes::ui::accept_request(&mut b_app, 0).expect("request accepted");
    let mut c = ctx("B");
    c.file_bytes = Some(b"file-data".to_vec());
    let act = plan_command(respond, c);
    let (filename, data) = match act {
        CommandAction::SendResponse { reply, filename, data } => {
            assert_eq!(reply, 11);
            (filename, data)
        },
        _ => panic!("expected a response action"),
    };
    assert!(b_app.directory.pending_file_requests.is_empty());
    // A receives the response and saves it under the prefixed name
    let mut a = ready_directory("A");
    let acts = handle_event(&mut a, NetEvent::ResponseReceived { filename, data });
    match &acts[0] {
        NetAction::SaveFile { filename, data } => {
            assert_eq!(filename, "new_notes.txt");
            assert_eq!(data, &b"file-data".to_vec());
        },
        _ => panic!("expected a save action"),
    }
}
