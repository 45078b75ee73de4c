//! Decisions behind the screens' key handling: what the enter key submits
//! on each screen, list navigation, and which background refresh a screen
//! asks for on redraw.

use vstd::prelude::*;
use vstd::string::StrSliceExecFns;
use vstd::string::StringExecFns;
use vstd::utf8::char_u32_cast;
use vstd::utf8::encode_utf8;
use crate::actor::Command;
use crate::directory::DirectoryView;
use crate::state::chat_line;
use crate::state::App;
use crate::state::Screen;
use crate::table::log_at;
use crate::topic::derive_dm_topic;
use crate::topic::dm_topic;
use crate::topic::valid_room_name;
use crate::topic::MAX_ROOM_NAME_BYTES;

verus! {

/// A character read as a 32 is the space character.
proof fn lemma_space(c: char)
    ensures
        (c as u32 == 32) <==> (c == ' '),
{
    char_u32_cast(c, c as u32);
    char_u32_cast(' ', ' ' as u32);
    assert(' ' as u32 == 32);
}

/// Whether the characters of `s` start with those of `p`.
pub fn has_prefix(s: &str, p: &str) -> (r: bool)
    ensures
        r == (p@.len() <= s@.len() && s@.subrange(0, p@.len() as int) == p@),
{
    let pn = p.unicode_len();
    let sn = s.unicode_len();
    if pn > sn {
        return false;
    }
    let mut i: usize = 0;
    while i < pn
        invariant
            i <= pn,
            pn == p@.len(),
            sn == s@.len(),
            pn <= sn,
            forall|j: int| 0 <= j < i ==> s@[j] == p@[j],
        decreases pn - i,
    {
        let cs = s.get_char(i);
        let cp = p.get_char(i);
        if cs as u32 != cp as u32 {
            proof {
                if s@.subrange(0, pn as int) == p@ {
                    assert(s@.subrange(0, pn as int)[i as int] == p@[i as int]);
                }
            }
            return false;
        }
        proof {
            char_u32_cast(cs, cs as u32);
            char_u32_cast(cp, cp as u32);
        }
        i = i + 1;
    }
    proof {
        assert(s@.subrange(0, pn as int) =~= p@);
    }
    true
}

/// `s` with every trailing space removed.
pub open spec fn trim_trailing_spaces(s: Seq<char>) -> Seq<char>
    decreases s.len(),
{
    if s.len() == 0 {
        s
    } else if s.last() == ' ' {
        trim_trailing_spaces(s.drop_last())
    } else {
        s
    }
}

/// The run of non-space characters that ends `t`; empty when `t` ends
/// with a space or is empty.
pub open spec fn tail_run(t: Seq<char>) -> Seq<char>
    decreases t.len(),
{
    if t.len() == 0 {
        Seq::empty()
    } else if t.last() == ' ' {
        Seq::empty()
    } else {
        tail_run(t.drop_last()).push(t.last())
    }
}

/// The last space-separated token of `s`, when it has one.
pub open spec fn last_token_of(s: Seq<char>) -> Option<Seq<char>> {
    if trim_trailing_spaces(s).len() == 0 {
        None
    } else {
        Some(tail_run(trim_trailing_spaces(s)))
    }
}

/// Finds the last space-separated token of `s`: how the resource name is
/// read off the end of a file-request line.
pub fn last_token(s: &str) -> (r: Option<String>)
    ensures
        match r {
            Some(t) => last_token_of(s@) == Some(t@),
            None => last_token_of(s@) is None,
        },
{
    let n = s.unicode_len();
    let mut end = n;
    proof {
        assert(s@.take(n as int) =~= s@);
    }
    loop
        invariant
            end <= n,
            n == s@.len(),
            trim_trailing_spaces(s@) == trim_trailing_spaces(s@.take(end as int)),
        ensures
            end <= n,
            n == s@.len(),
            trim_trailing_spaces(s@) == s@.take(end as int),
        decreases end,
    {
        if end == 0 {
            proof {
                assert(s@.take(0) =~= Seq::<char>::empty());
            }
            break ;
        }
        let c = s.get_char(end - 1);
        proof {
            lemma_space(c);
            assert(s@.take(end as int).last() == s@[end - 1]);
        }
        if (c as u32) != 32 {
            break ;
        }
        proof {
            assert(s@.take(end as int).drop_last() =~= s@.take(end - 1));
        }
        end = end - 1;
    }
    if end == 0 {
        return None;
    }
    let mut start = end;
    proof {
        assert(tail_run(s@.take(end as int)) =~= tail_run(s@.take(end as int)) + s@.subrange(
            end as int,
            end as int,
        ));
    }
    loop
        invariant
            start <= end,
            end <= n,
            0 < end,
            n == s@.len(),
            trim_trailing_spaces(s@) == s@.take(end as int),
            tail_run(s@.take(end as int)) == tail_run(s@.take(start as int)) + s@.subrange(
                start as int,
                end as int,
            ),
        ensures
            start <= end,
            end <= n,
            0 < end,
            n == s@.len(),
            trim_trailing_spaces(s@) == s@.take(end as int),
            tail_run(s@.take(end as int)) == s@.subrange(start as int, end as int),
        decreases start,
    {
        if start == 0 {
            proof {
                assert(s@.take(0) =~= Seq::<char>::empty());
                assert(tail_run(s@.take(0)) + s@.subrange(0, end as int) =~= s@.subrange(
                    0,
                    end as int,
                ));
            }
            break ;
        }
        let c = s.get_char(start - 1);
        proof {
            lemma_space(c);
            assert(s@.take(start as int).last() == s@[start - 1]);
        }
        if (c as u32) == 32 {
            proof {
                assert(tail_run(s@.take(start as int)) =~= Seq::<char>::empty());
                assert(tail_run(s@.take(start as int)) + s@.subrange(start as int, end as int)
                    =~= s@.subrange(start as int, end as int));
            }
            break ;
        }
        proof {
            assert(s@.take(start as int).drop_last() =~= s@.take(start - 1));
            assert(tail_run(s@.take(start as int)) == tail_run(s@.take(start - 1)).push(
                s@[start - 1],
            ));
            assert(tail_run(s@.take(start - 1)).push(s@[start - 1]) + s@.subrange(
                start as int,
                end as int,
            ) =~= tail_run(s@.take(start - 1)) + s@.subrange(start - 1, end as int));
        }
        start = start - 1;
    }
    let tok = s.substring_char(start, end).to_owned();
    Some(tok)
}

/// The background work a screen asks for each time it is about to be
/// drawn: the direct-message screen reconciles usernames once a peer is
/// connected, and the room-selection screen refreshes the room list.
pub enum RefreshAction {
    UpdateUsernames,
    FetchRooms,
    NoRefresh,
}

/// Which refresh the given screen wants, given how many peers are
/// registered.
pub fn screen_refresh(screen: &Screen, peer_count: usize) -> (r: RefreshAction)
    ensures
        r == (match *screen {
            Screen::DMScreen => if peer_count >= 1 {
                RefreshAction::UpdateUsernames
            } else {
                RefreshAction::NoRefresh
            },
            Screen::SelectRoomScreen => RefreshAction::FetchRooms,
            _ => RefreshAction::NoRefresh,
        }),
{
    match screen {
        Screen::DMScreen => {
            if peer_count >= 1 {
                RefreshAction::UpdateUsernames
            } else {
                RefreshAction::NoRefresh
            }
        },
        Screen::SelectRoomScreen => RefreshAction::FetchRooms,
        _ => RefreshAction::NoRefresh,
    }
}

/// What pressing enter on the login screen does: with a name typed and a
/// peer connected, the name becomes this user's username, the input
/// clears, and the name is pushed to the distributed directory; otherwise
/// nothing happens.
pub fn login_submit(app: &mut App) -> (cmd: Option<Command>)
    requires
        old(app).wf(),
    ensures
        final(app).wf(),
        if old(app).input@.len() > 0 && old(app).directory@.connected_peers > 0 {
            &&& cmd matches Some(c) && (c matches Command::PushUsername { username } && username@
                == old(app).input@)
            &&& final(app).username@ == old(app).input@
            &&& final(app).input@ == Seq::<char>::empty()
            &&& final(app).character_index == 0
            &&& final(app).current_screen == old(app).current_screen
            &&& final(app).current_room == old(app).current_room
            &&& final(app).directory == old(app).directory
        } else {
            cmd is None && *final(app) == *old(app)
        },
{
    if !app.input.as_str().is_empty() && app.directory.connected_peers > 0 {
        let name = app.input.clone();
        app.username = app.input.clone();
        app.clear_input();
        Some(Command::PushUsername { username: name })
    } else {
        None
    }
}

/// Exactly what pressing enter on the main screen owes: a line that asks
/// to create a room is validated (one to `MAX_ROOM_NAME_BYTES` bytes) and
/// becomes a create-room command, a too-long or empty name is rejected
/// before any network write, and any other line is stored in the selected
/// room's log and published to its topic.
pub open spec fn main_enter_ok(pre: App, post: App, cmd: Option<Command>) -> bool {
    let prefix = "!create room "@;
    if prefix.len() <= pre.input@.len() && pre.input@.subrange(0, prefix.len() as int)
        == prefix {
        let name = pre.input@.subrange(prefix.len() as int, pre.input@.len() as int);
        if 1 <= encode_utf8(name).len() <= MAX_ROOM_NAME_BYTES {
            &&& cmd matches Some(c) && (c matches Command::CreateRoom { chat_name } && chat_name@
                == name)
            &&& post.input@ == Seq::<char>::empty()
            &&& post.character_index == 0
            &&& post.directory == pre.directory
            &&& post.username == pre.username
            &&& post.current_screen == pre.current_screen
            &&& post.current_room == pre.current_room
        } else {
            cmd is None && post == pre
        }
    } else {
        let line = chat_line(pre.username@, pre.input@);
        &&& cmd matches Some(c) && (c matches Command::SendMessage { message, topic } && message@
            == line && topic@ == (if pre.current_room < pre.directory@.rooms.len() {
            pre.directory@.rooms[pre.current_room as int]
        } else {
            "global"@
        }))
        &&& post.input@ == Seq::<char>::empty()
        &&& post.character_index == 0
        &&& post.username == pre.username
        &&& post.current_screen == pre.current_screen
        &&& post.current_room == pre.current_room
        &&& if pre.current_room < pre.directory@.rooms.len() {
            post.directory@ == (DirectoryView {
                public_messages: pre.directory@.public_messages.insert(
                    pre.directory@.rooms[pre.current_room as int],
                    log_at(
                        pre.directory@.public_messages,
                        pre.directory@.rooms[pre.current_room as int],
                    ).push(line),
                ),
                ..pre.directory@
            })
        } else {
            post.directory@ == pre.directory@
        }
    }
}

/// Handles enter on the main screen: create a room, or send the input
/// line to the selected room.
pub fn main_screen_enter(app: &mut App) -> (cmd: Option<Command>)
    requires
        old(app).wf(),
    ensures
        final(app).wf(),
        main_enter_ok(*old(app), *final(app), cmd),
{
    if has_prefix(app.input.as_str(), "!create room ") {
        proof {
            reveal_strlit("!create room ");
        }
        let n = app.input.as_str().unicode_len();
        let name_str = app.input.as_str().substring_char(13, n);
        if valid_room_name(name_str) {
            let chat_name = name_str.to_owned();
            app.clear_input();
            Some(Command::CreateRoom { chat_name })
        } else {
            None
        }
    } else {
        proof {
            reveal_strlit("!create room ");
        }
        let line = app.username.clone().concat(": ").concat(app.input.as_str());
        let topic = if app.current_room < app.directory.rooms.len() {
            app.directory.rooms[app.current_room].clone()
        } else {
            "global".to_owned()
        };
        app.submit_public_room_message();
        Some(Command::SendMessage { message: line, topic })
    }
}

/// Exactly what pressing enter in the direct-message input owes: nothing
/// without an own identity, a selected peer and a typed line; a line that
/// asks for a file becomes a file request for its last word, sent to the
/// selected peer; any other line is stored in the shared channel's log
/// and published to the derived topic.
pub open spec fn dm_enter_ok(pre: App, post: App, peer_index: usize, cmd: Option<
    Command,
>) -> bool {
    let prefix = "!request file"@;
    if pre.directory@.self_peer_id is None || peer_index >= pre.directory@.peers.len()
        || pre.input@.len() == 0 {
        cmd is None && post == pre
    } else {
        let peer = pre.directory@.peers[peer_index as int];
        if prefix.len() <= pre.input@.len() && pre.input@.subrange(0, prefix.len() as int)
            == prefix {
            match last_token_of(pre.input@) {
                Some(tok) => {
                    &&& cmd matches Some(c) && (c matches Command::RequestFile { request, peer: p }
                        && request@ == tok && p@ == peer)
                    &&& post.input@ == Seq::<char>::empty()
                    &&& post.character_index == 0
                    &&& post.directory == pre.directory
                    &&& post.username == pre.username
                    &&& post.current_screen == pre.current_screen
                    &&& post.current_room == pre.current_room
                },
                None => cmd is None && post == pre,
            }
        } else {
            let dm = dm_topic(pre.directory@.self_peer_id->0, peer);
            &&& cmd matches Some(c) && (c matches Command::SendMessage { message, topic }
                && message@ == pre.input@ && topic@ == dm)
            &&& post.input@ == Seq::<char>::empty()
            &&& post.character_index == 0
            &&& post.username == pre.username
            &&& post.current_screen == pre.current_screen
            &&& post.current_room == pre.current_room
            &&& post.directory@ == (DirectoryView {
                private_messages: pre.directory@.private_messages.insert(
                    dm,
                    log_at(pre.directory@.private_messages, dm).push(
                        chat_line(pre.username@, pre.input@),
                    ),
                ),
                ..pre.directory@
            })
        }
    }
}

/// Handles enter in the direct-message input for the selected peer:
/// request a file, or send the line over the shared channel.
pub fn dm_screen_enter(app: &mut App, peer_index: usize) -> (cmd: Option<Command>)
    requires
        old(app).wf(),
    ensures
        final(app).wf(),
        dm_enter_ok(*old(app), *final(app), peer_index, cmd),
{
    if app.directory.self_peer_id.is_none() {
        return None;
    }
    if peer_index >= app.directory.peers.len() {
        return None;
    }
    if app.input.as_str().is_empty() {
        return None;
    }
    let peer = app.directory.peers[peer_index].clone();
    proof {
        reveal_strlit("!request file");
    }
    if has_prefix(app.input.as_str(), "!request file") {
        match last_token(app.input.as_str()) {
            Some(tok) => {
                app.clear_input();
                Some(Command::RequestFile { request: tok, peer })
            },
            None => None,
        }
    } else {
        let me = app.directory.self_peer_id.as_ref().unwrap().clone();
        let topic = derive_dm_topic(me.as_str(), peer.as_str());
        let message = app.input.clone();
        app.submit_private_message(topic.clone());
        Some(Command::SendMessage { message, topic })
    }
}

/// Accepts the pending file request at `index`: it leaves the queue, the
/// input clears, and a response is sent back over the request's reply
/// ticket, serving the resource the peer named.
pub fn accept_request(app: &mut App, index: usize) -> (cmd: Option<Command>)
    requires
        old(app).wf(),
    ensures
        final(app).wf(),
        match cmd {
            Some(c) => {
                &&& index < old(app).directory@.pending_file_requests.len()
                &&& ({
                    let item = old(app).directory@.pending_file_requests[index as int];
                    c matches Command::RespondFile { filename, filepath, reply } && filename@
                        == item.request_string && filepath@ == item.request_string && reply
                        == item.reply
                })
                &&& final(app).directory@ == (DirectoryView {
                    pending_file_requests: old(app).directory@.pending_file_requests.remove(
                        index as int,
                    ),
                    ..old(app).directory@
                })
                &&& final(app).input@ == Seq::<char>::empty()
                &&& final(app).character_index == 0
                &&& final(app).username == old(app).username
                &&& final(app).current_screen == old(app).current_screen
                &&& final(app).current_room == old(app).current_room
            },
            None => index >= old(app).directory@.pending_file_requests.len() && *final(app)
                == *old(app),
        },
{
    match app.directory.take_request(index) {
        Some(item) => {
            let filename = item.request_string.clone();
            app.clear_input();
            Some(Command::RespondFile { filename, filepath: item.request_string, reply: item.reply })
        },
        None => None,
    }
}

/// Moves a list selection one entry up, wrapping from the top to the
/// bottom.
pub fn list_select_up(selected: Option<usize>, count: usize) -> (r: usize)
    requires
        count > 0,
    ensures
        r == (match selected {
            Some(i) => if i == 0 {
                (count - 1) as int
            } else {
                i - 1
            },
            None => 0int,
        }),
{
    match selected {
        Some(i) => if i == 0 {
            count - 1
        } else {
            i - 1
        },
        None => 0,
    }
}

/// Moves a list selection one entry down, wrapping from the bottom to the
/// top.
pub fn list_select_down(selected: Option<usize>, count: usize) -> (r: usize)
    requires
        count > 0,
    ensures
        r == (match selected {
            Some(i) => if i >= count - 1 {
                0int
            } else {
                i + 1
            },
            None => 0int,
        }),
{
    match selected {
        Some(i) => if i >= count - 1 {
            0
        } else {
            i + 1
        },
        None => 0,
    }
}

/// Confirms a sidebar selection: a selection inside the peer list becomes
/// the conversation partner; anything else keeps the current one.
pub fn select_person(selected: Option<usize>, peers_len: usize, current: usize) -> (r: usize)
    ensures
        r == (match selected {
            Some(s) => if s < peers_len {
                s as int
            } else {
                current as int
            },
            None => current as int,
        }),
{
    match selected {
        Some(s) => if s < peers_len {
            s
        } else {
            current
        },
        None => current,
    }
}

/// Cycles the direct-message screen's focus: input, then the people
/// sidebar, then the request list, then input again. The two flags are
/// (in sidebar, in requests).
pub fn toggle_ui_modes(in_sidebar: bool, in_requests: bool) -> (r: (bool, bool))
    ensures
        r == (if in_sidebar {
            (false, true)
        } else if in_requests {
            (false, false)
        } else {
            (true, false)
        }),
{
    if in_sidebar {
        (false, true)
    } else if in_requests {
        (false, false)
    } else {
        (true, false)
    }
}

} // verus!
