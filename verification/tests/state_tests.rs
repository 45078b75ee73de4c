use swapbytes::state::next_screen;
use swapbytes::state::previous_screen;
use swapbytes::state::screen_tab_index;
use swapbytes::state::App;
use swapbytes::state::Screen;
use swapbytes::state::UsernamePass;

fn typed(app: &mut App, text: &str) {
    for c in text.chars() {
        app.enter_char(c);
    }
}

#[test]
fn new_app_starts_on_the_login_screen() {
    let app = App::new();
    assert_eq!(app.current_screen, Screen::LoginScreen);
    assert!(app.input.is_empty());
    assert_eq!(app.character_index, 0);
    assert!(app.username.is_empty());
    assert_eq!(app.current_room, 0);
}

#[test]
fn tab_cycles_through_the_main_screens() {
    assert_eq!(next_screen(&Screen::MainScreen), Screen::SelectRoomScreen);
    assert_eq!(next_screen(&Screen::SelectRoomScreen), Screen::DMScreen);
    assert_eq!(next_screen(&Screen::DMScreen), Screen::MainScreen);
    assert_eq!(next_screen(&Screen::LoginScreen), Screen::LoginScreen);
    assert_eq!(previous_screen(&Screen::MainScreen), Screen::DMScreen);
    assert_eq!(previous_screen(&Screen::DMScreen), Screen::SelectRoomScreen);
    assert_eq!(previous_screen(&Screen::SelectRoomScreen), Screen::MainScreen);
    assert_eq!(previous_screen(&Screen::LoginScreen), Screen::LoginScreen);
}

#[test]
fn tab_bar_indices() {
    assert_eq!(screen_tab_index(&Screen::MainScreen), 0);
    assert_eq!(screen_tab_index(&Screen::SelectRoomScreen), 1);
    assert_eq!(screen_tab_index(&Screen::DMScreen), 2);
    assert_eq!(screen_tab_index(&Screen::LoginScreen), 0);
}

#[test]
fn typing_inserts_at_the_cursor() {
    let mut app = App::new();
    typed(&mut app, "ac");
    app.move_cursor_left();
    app.enter_char('b');
    assert_eq!(app.input, "abc");
    assert_eq!(app.character_index, 2);
}

#[test]
fn backspace_deletes_before_the_cursor() {
    let mut app = App::new();
    typed(&mut app, "abc");
    app.move_cursor_left();
    app.delete_char();
    assert_eq!(app.input, "ac");
    assert_eq!(app.character_index, 1);
    // at the start of the line nothing happens
    app.move_cursor_left();
    app.delete_char();
    assert_eq!(app.input, "ac");
}

#[test]
fn cursor_stops_at_both_ends() {
    let mut app = App::new();
    app.move_cursor_left();
    assert_eq!(app.character_index, 0);
    typed(&mut app, "hi");
    app.move_cursor_right();
    assert_eq!(app.character_index, 2);
}

#[test]
fn editing_counts_characters_not_bytes() {
    let mut app = App::new();
    typed(&mut app, "\u{e9}b");
    app.move_cursor_left();
    app.move_cursor_left();
    app.delete_char();
    assert_eq!(app.input, "\u{e9}b");
    app.move_cursor_right();
    app.delete_char();
    assert_eq!(app.input, "b");
}

#[test]
fn clear_input_resets_line_and_cursor() {
    let mut app = App::new();
    typed(&mut app, "hello");
    app.clear_input();
    assert!(app.input.is_empty());
    assert_eq!(app.character_index, 0);
}

#[test]
fn public_submission_formats_and_stores_the_line() {
    let mut app = App::new();
    app.username = "alice".to_string();
    typed(&mut app, "hi all");
    app.submit_public_room_message();
    assert!(app.input.is_empty());
    let log = app.directory.public_messages.get(&"global".to_string()).unwrap();
    assert_eq!(log, &vec!["alice: hi all".to_string()]);
}

#[test]
fn private_submission_stores_under_the_topic() {
    let mut app = App::new();
    app.username = "alice".to_string();
    typed(&mut app, "psst");
    app.submit_private_message("A_B".to_string());
    let log = app.directory.private_messages.get(&"A_B".to_string()).unwrap();
    assert_eq!(log, &vec!["alice: psst".to_string()]);
}

#[test]
fn reconciliation_queries_peers_without_names() {
    let mut app = App::new();
    app.directory.set_self_peer_id("me".to_string());
    app.directory.peer_discovered(&"B".to_string());
    app.directory.peer_discovered(&"C".to_string());
    match app.update_usernames() {
        UsernamePass::Query(peers) => {
            assert_eq!(peers, vec!["B".to_string(), "C".to_string()]);
        },
        _ => panic!("expected a query pass"),
    }
    app.finish_username_update();
}

#[test]
fn reconciliation_prunes_departed_peers() {
    let mut app = App::new();
    app.directory.set_self_peer_id("me".to_string());
    app.directory.peer_discovered(&"B".to_string());
    app.directory.merge_username(&"B".to_string(), "bob".to_string());
    app.directory.merge_username(&"C".to_string(), "carol".to_string());
    // the entry for the never-registered peer is stale
    match app.update_usernames() {
        UsernamePass::Pruned => {},
        _ => panic!("expected a pruning pass"),
    }
    assert_eq!(
        app.directory.usernames.get(&"B".to_string()),
        Some(&"bob".to_string())
    );
    assert!(app.directory.usernames.get(&"C".to_string()).is_none());
    app.finish_username_update();
}

#[test]
fn reconciliation_is_a_no_op_when_in_sync() {
    let mut app = App::new();
    app.directory.set_self_peer_id("me".to_string());
    app.directory.peer_discovered(&"B".to_string());
    app.directory.merge_username(&"B".to_string(), "bob".to_string());
    match app.update_usernames() {
        UsernamePass::InSync => {},
        _ => panic!("expected an in-sync pass"),
    }
    app.finish_username_update();
}

#[test]
fn overlapping_reconciliation_passes_collapse() {
    let mut app = App::new();
    app.directory.set_self_peer_id("me".to_string());
    app.directory.peer_discovered(&"B".to_string());
    // guard observed false before the window: the first pass runs
    assert!(!app.directory.reconciliation_in_progress);
    match app.update_usernames() {
        UsernamePass::Query(_) => {},
        _ => panic!("expected a query pass"),
    }
    // a second pass inside the window skips and changes nothing
    let peers_before = app.directory.peers.clone();
    match app.update_usernames() {
        UsernamePass::Skipped => {},
        _ => panic!("expected the overlapping pass to skip"),
    }
    assert_eq!(app.directory.peers, peers_before);
    // guard observed false again after the window
    app.finish_username_update();
    assert!(!app.directory.reconciliation_in_progress);
    match app.update_usernames() {
        UsernamePass::Query(_) => {},
        _ => panic!("expected the next pass to run"),
    }
    app.finish_username_update();
}
