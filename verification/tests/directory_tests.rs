use swapbytes::directory::Directory;
use swapbytes::directory::RequestItem;

fn ready_directory(self_id: &str) -> Directory {
    let mut d = Directory::new();
    d.set_self_peer_id(self_id.to_string());
    d
}

#[test]
fn new_directory_has_default_rooms() {
    let d = Directory::new();
    assert_eq!(d.rooms, vec!["global", "engineering", "sciences", "arts"]);
    for room in &d.rooms {
        let log = d.public_messages.get(room).expect("room log exists");
        assert!(log.is_empty());
    }
    assert!(d.peers.is_empty());
    assert!(d.peers_awaiting_username.is_empty());
    assert_eq!(d.connected_peers, 0);
    assert!(d.pending_file_requests.is_empty());
    assert!(!d.reconciliation_in_progress);
    assert!(d.self_peer_id.is_none());
}

#[test]
fn discovery_registers_peer_and_derives_dm_topic() {
    let mut d = ready_directory("A");
    let dm = d.peer_discovered(&"B".to_string());
    assert_eq!(dm, "A_B");
    assert_eq!(d.peers, vec!["B"]);
    assert_eq!(d.peers_awaiting_username, vec!["B"]);
    assert_eq!(d.connected_peers, 1);
    let log = d.private_messages.get(&dm).expect("dm log created");
    assert!(log.is_empty());
}

#[test]
fn both_sides_compute_the_same_dm_topic() {
    let mut a = ready_directory("A");
    let mut b = ready_directory("B");
    let dm_at_a = a.peer_discovered(&"B".to_string());
    let dm_at_b = b.peer_discovered(&"A".to_string());
    assert_eq!(dm_at_a, "A_B");
    assert_eq!(dm_at_b, "A_B");
    assert_eq!(a.connected_peers, 1);
    assert_eq!(b.connected_peers, 1);
}

#[test]
fn rediscovery_keeps_the_peer_set_but_counts_again() {
    let mut d = ready_directory("A");
    d.peer_discovered(&"B".to_string());
    d.peer_discovered(&"B".to_string());
    assert_eq!(d.peers, vec!["B"]);
    assert_eq!(d.peers_awaiting_username, vec!["B"]);
    assert_eq!(d.connected_peers, 2);
}

#[test]
fn rediscovery_initializes_the_dm_log_to_empty() {
    // identifiers long enough that the derived topic classifies as a DM
    let me = "A".repeat(40);
    let peer = "B".repeat(40);
    let mut d = ready_directory(&me);
    let dm = d.peer_discovered(&peer);
    d.receive_message(&dm, "hello".to_string());
    d.peer_discovered(&peer);
    let log = d.private_messages.get(&dm).expect("dm log exists");
    assert!(log.is_empty());
}

#[test]
fn expiry_decrements_and_stops_at_zero() {
    let mut d = ready_directory("A");
    d.peer_discovered(&"B".to_string());
    d.peer_expired();
    assert_eq!(d.connected_peers, 0);
    d.peer_expired();
    assert_eq!(d.connected_peers, 0);
}

#[test]
fn connection_closed_removes_peer_and_is_idempotent() {
    let mut d = ready_directory("A");
    d.peer_discovered(&"B".to_string());
    d.peer_discovered(&"C".to_string());
    d.connection_closed(&"B".to_string());
    assert_eq!(d.peers, vec!["C"]);
    assert_eq!(d.peers_awaiting_username, vec!["C"]);
    d.connection_closed(&"B".to_string());
    assert_eq!(d.peers, vec!["C"]);
}

#[test]
fn short_topic_message_goes_to_the_room_log() {
    let mut d = Directory::new();
    d.receive_message(&"global".to_string(), "alice: hi".to_string());
    let log = d.public_messages.get(&"global".to_string()).unwrap();
    assert_eq!(log, &vec!["alice: hi".to_string()]);
}

#[test]
fn unknown_short_topic_becomes_a_room() {
    let mut d = Directory::new();
    d.receive_message(&"retro".to_string(), "first".to_string());
    assert!(d.rooms.contains(&"retro".to_string()));
    let log = d.public_messages.get(&"retro".to_string()).unwrap();
    assert_eq!(log, &vec!["first".to_string()]);
}

#[test]
fn long_topic_message_goes_to_the_private_log() {
    let mut d = Directory::new();
    let topic = "p".repeat(65);
    d.receive_message(&topic, "psst".to_string());
    assert!(!d.rooms.contains(&topic));
    let log = d.private_messages.get(&topic).unwrap();
    assert_eq!(log, &vec!["psst".to_string()]);
}

#[test]
fn pending_requests_queue_in_order() {
    let mut d = Directory::new();
    d.add_request(RequestItem {
        peer_id: "A".to_string(),
        request_string: "notes.txt".to_string(),
        reply: 7,
    });
    d.add_request(RequestItem {
        peer_id: "B".to_string(),
        request_string: "pic.png".to_string(),
        reply: 8,
    });
    assert_eq!(d.pending_file_requests.len(), 2);
    let taken = d.take_request(0).expect("first request");
    assert_eq!(taken.peer_id, "A");
    assert_eq!(taken.request_string, "notes.txt");
    assert_eq!(taken.reply, 7);
    assert_eq!(d.pending_file_requests.len(), 1);
    assert!(d.take_request(5).is_none());
    assert_eq!(d.pending_file_requests.len(), 1);
}

#[test]
fn merging_a_room_list_skips_known_rooms() {
    let mut d = Directory::new();
    let list = vec!["global".to_string(), "retro".to_string(), "retro".to_string()];
    let record = serde_cbor::to_vec(&list).unwrap();
    let added = d
        .apply_record(&"room_store".to_string(), &record)
        .expect("room list record decodes");
    assert_eq!(added, vec!["retro".to_string()]);
    assert_eq!(d.rooms.iter().filter(|r| r.as_str() == "global").count(), 1);
    assert_eq!(d.rooms.iter().filter(|r| r.as_str() == "retro").count(), 1);
}

#[test]
fn username_record_applies_under_its_key() {
    let mut d = Directory::new();
    let record = serde_cbor::to_vec(&"bob".to_string()).unwrap();
    let added = d.apply_record(&"B".to_string(), &record).expect("username decodes");
    assert!(added.is_empty());
    assert_eq!(d.usernames.get(&"B".to_string()), Some(&"bob".to_string()));
}
