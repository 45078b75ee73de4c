use swapbytes::topic::classify;
use swapbytes::topic::derive_dm_topic;
use swapbytes::topic::valid_room_name;
use swapbytes::topic::Classification;

#[test]
fn classify_boundary_64_bytes_is_public() {
    let name = "a".repeat(64);
    assert_eq!(classify(&name), Classification::Public);
}

#[test]
fn classify_65_bytes_is_private() {
    let name = "a".repeat(65);
    assert_eq!(classify(&name), Classification::Private);
}

#[test]
fn classify_counts_bytes_not_characters() {
    // 32 two-byte characters: 64 bytes, public
    let name = "\u{e9}".repeat(32);
    assert_eq!(name.len(), 64);
    assert_eq!(classify(&name), Classification::Public);
    // 33 two-byte characters: 66 bytes, private
    let long = "\u{e9}".repeat(33);
    assert_eq!(classify(&long), Classification::Private);
}

#[test]
fn classify_empty_topic_is_public() {
    assert_eq!(classify(""), Classification::Public);
}

#[test]
fn room_name_validation_accepts_1_to_64_bytes() {
    assert!(valid_room_name("a"));
    assert!(valid_room_name(&"a".repeat(64)));
    assert!(!valid_room_name(""));
    assert!(!valid_room_name(&"a".repeat(65)));
}

#[test]
fn dm_topic_is_sorted_join() {
    assert_eq!(derive_dm_topic("A", "B"), "A_B");
    assert_eq!(derive_dm_topic("B", "A"), "A_B");
}

#[test]
fn dm_topic_commutative_on_longer_ids() {
    let a = "12D3KooWAAAA";
    let b = "12D3KooWBBBB";
    assert_eq!(derive_dm_topic(a, b), derive_dm_topic(b, a));
    assert_eq!(derive_dm_topic(a, b), "12D3KooWAAAA_12D3KooWBBBB");
}

#[test]
fn dm_topic_of_equal_ids() {
    assert_eq!(derive_dm_topic("X", "X"), "X_X");
}

#[test]
fn dm_topic_prefix_order() {
    // a proper prefix sorts before the longer identifier
    assert_eq!(derive_dm_topic("AB", "A"), "A_AB");
}
