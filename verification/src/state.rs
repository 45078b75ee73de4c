//! Presentation-side state: the input editor, the screen being shown, and
//! the username reconciliation pass over the shared directory.

use vstd::prelude::*;
use vstd::string::StrSliceExecFns;
use vstd::string::StringExecFns;
use crate::directory::initial_directory;
use crate::directory::Directory;
use crate::directory::DirectoryView;
use crate::names::lemma_distinct_subset_len;
use crate::table::log_at;
use crate::table::Table;

verus! {

/// The screen the presentation layer is showing.
#[derive(Clone, PartialEq, Eq, Structural, Debug)]
pub enum Screen {
    LoginScreen,
    MainScreen,
    SelectRoomScreen,
    DMScreen,
}

/// The screen the tab key moves to: the three main screens cycle; the
/// login screen stays put.
pub fn next_screen(s: &Screen) -> (r: Screen)
    ensures
        r == (match *s {
            Screen::MainScreen => Screen::SelectRoomScreen,
            Screen::SelectRoomScreen => Screen::DMScreen,
            Screen::DMScreen => Screen::MainScreen,
            Screen::LoginScreen => Screen::LoginScreen,
        }),
{
    match s {
        Screen::MainScreen => Screen::SelectRoomScreen,
        Screen::SelectRoomScreen => Screen::DMScreen,
        Screen::DMScreen => Screen::MainScreen,
        Screen::LoginScreen => Screen::LoginScreen,
    }
}

/// The screen the back-tab key moves to: the cycle of `next_screen`,
/// backwards.
pub fn previous_screen(s: &Screen) -> (r: Screen)
    ensures
        r == (match *s {
            Screen::MainScreen => Screen::DMScreen,
            Screen::SelectRoomScreen => Screen::MainScreen,
            Screen::DMScreen => Screen::SelectRoomScreen,
            Screen::LoginScreen => Screen::LoginScreen,
        }),
{
    match s {
        Screen::MainScreen => Screen::DMScreen,
        Screen::SelectRoomScreen => Screen::MainScreen,
        Screen::DMScreen => Screen::SelectRoomScreen,
        Screen::LoginScreen => Screen::LoginScreen,
    }
}

/// Which tab of the tab bar a screen highlights; the login screen shows
/// none and defaults to the first.
pub fn screen_tab_index(s: &Screen) -> (i: usize)
    ensures
        i == (match *s {
            Screen::MainScreen => 0usize,
            Screen::SelectRoomScreen => 1usize,
            Screen::DMScreen => 2usize,
            Screen::LoginScreen => 0usize,
        }),
{
    match s {
        Screen::MainScreen => 0,
        Screen::SelectRoomScreen => 1,
        Screen::DMScreen => 2,
        Screen::LoginScreen => 0,
    }
}

/// A chat line as it is stored in a message log: the author's name, a
/// colon and a space, then the text.
pub open spec fn chat_line(user: Seq<char>, text: Seq<char>) -> Seq<char> {
    user + ": "@ + text
}

/// Relies on `String::push`: appends the character to the string.
#[verifier::external_body]
fn push_char(s: &mut String, c: char)
    ensures
        final(s)@ == old(s)@.push(c),
{
    s.push(c);
}

/// The outcome of one username reconciliation pass.
pub enum UsernamePass {
    /// Another pass holds the guard; nothing was examined or changed.
    Skipped,
    /// Stale entries were pruned down to the current peer set.
    Pruned,
    /// These peers lack a resolved username; look each of them up.
    Query(Vec<String>),
    /// Counts agree and no peer is awaiting a username.
    InSync,
}

/// The peers with no resolved username, in peer order: those the pass
/// asks the distributed directory about.
pub open spec fn username_query_list(
    peers: Seq<Seq<char>>,
    usernames: Map<Seq<char>, Seq<char>>,
) -> Seq<Seq<char>>
    decreases peers.len(),
{
    if peers.len() == 0 {
        Seq::empty()
    } else {
        let done = username_query_list(peers.drop_last(), usernames);
        if usernames.dom().contains(peers.last()) {
            done
        } else {
            done.push(peers.last())
        }
    }
}

/// The username registry restricted to the current peers: what pruning
/// stale entries leaves behind.
pub open spec fn pruned_usernames(
    usernames: Map<Seq<char>, Seq<char>>,
    peers: Seq<Seq<char>>,
) -> Map<Seq<char>, Seq<char>> {
    Map::new(|k: Seq<char>| usernames.dom().contains(k) && peers.contains(k), |k: Seq<char>| usernames[k])
}

/// The username table restricted to the given peers: the prune step of a
/// reconciliation pass.
fn prune_usernames(usernames: &Table<String>, peers: &Vec<String>) -> (kept: Table<String>)
    requires
        usernames.wf(),
    ensures
        kept.wf(),
        kept@ == pruned_usernames(usernames@, peers.deep_view()),
{
    let mut kept: Table<String> = Table::new();
    let n = peers.len();
    let mut i: usize = 0;
    while i < n
        invariant
            i <= n,
            n == peers@.len(),
            usernames.wf(),
            kept.wf(),
            forall|k: Seq<char>|
                kept@.dom().contains(k) <==> (peers.deep_view().take(i as int).contains(k)
                    && usernames@.dom().contains(k)),
            forall|k: Seq<char>| kept@.dom().contains(k) ==> kept@[k] == usernames@[k],
        decreases n - i,
    {
        let ghost pdv = peers.deep_view();
        let peer = &peers[i];
        proof {
            assert(pdv.take(i + 1) =~= pdv.take(i as int).push(pdv[i as int]));
            assert(pdv.take(i + 1)[i as int] == pdv[i as int]);
            assert(pdv.take(i + 1).contains(pdv[i as int]));
            assert forall|k: Seq<char>| pdv.take(i + 1).contains(k) implies (pdv.take(
                i as int,
            ).contains(k) || k == pdv[i as int]) by {
                let j = choose|j: int|
                    0 <= j < pdv.take(i + 1).len() && #[trigger] pdv.take(i + 1)[j] == k;
                if j < i {
                    assert(pdv.take(i as int)[j] == k);
                }
            }
            assert forall|k: Seq<char>| pdv.take(i as int).contains(k) implies pdv.take(
                i + 1,
            ).contains(k) by {
                let j = choose|j: int|
                    0 <= j < pdv.take(i as int).len() && #[trigger] pdv.take(i as int)[j] == k;
                assert(pdv.take(i + 1)[j] == k);
            }
            assert(peer@ == pdv[i as int]);
        }
        match usernames.get(peer) {
            Some(u) => {
                let name = u.clone();
                let ghost kpre = kept@;
                kept.insert(peer.clone(), name);
                proof {
                    assert(kept@ == kpre.insert(peer@, u@));
                    assert forall|k: Seq<char>|
                        kept@.dom().contains(k) == (pdv.take(i + 1).contains(k)
                            && usernames@.dom().contains(k)) by {
                        if k == peer@ {
                            assert(pdv.take(i + 1).contains(k));
                            assert(usernames@.dom().contains(k));
                            assert(kept@.dom().contains(k));
                        } else {
                            assert(kpre.dom().contains(k) == (pdv.take(i as int).contains(k)
                                && usernames@.dom().contains(k)));
                            assert(kept@.dom().contains(k) == kpre.dom().contains(k));
                            assert(pdv.take(i + 1).contains(k) == pdv.take(i as int).contains(k));
                        }
                    }
                    assert forall|k: Seq<char>| kept@.dom().contains(k) implies kept@[k]
                        == usernames@[k] by {
                        if k == peer@ {
                            assert(kept@[k] == u@);
                        } else {
                            assert(kept@[k] == kpre[k]);
                            assert(kpre.dom().contains(k));
                        }
                    }
                }
            },
            None => {
                proof {
                    assert forall|k: Seq<char>|
                        kept@.dom().contains(k) == (pdv.take(i + 1).contains(k)
                            && usernames@.dom().contains(k)) by {
                        if k == peer@ {
                            assert(!usernames@.dom().contains(k));
                        } else {
                            assert(pdv.take(i + 1).contains(k) == pdv.take(i as int).contains(k));
                        }
                    }
                }
            },
        }
        i = i + 1;
    }
    proof {
        assert(peers.deep_view().take(n as int) =~= peers.deep_view());
        assert(kept@ =~= pruned_usernames(usernames@, peers.deep_view()));
    }
    kept
}

/// The application state the presentation layer works on: the input line
/// being edited, the screen shown, this user's name, the selected room,
/// and the shared directory.
pub struct App {
    /// Current value of the input box.
    pub input: String,
    /// Cursor position in the input box, counted in characters.
    pub character_index: usize,
    /// The screen being shown.
    pub current_screen: Screen,
    /// The name this user logged in with.
    pub username: String,
    /// Index of the selected room in the directory's room list.
    pub current_room: usize,
    /// The shared directory.
    pub directory: Directory,
}

impl App {
    /// The editor's invariant on top of the directory's: the cursor sits
    /// inside the input line.
    pub open spec fn wf(&self) -> bool {
        &&& self.directory.wf()
        &&& self.character_index <= self.input@.len()
    }

    /// A fresh application: empty input, the login screen, no username,
    /// the first room selected, and a fresh directory.
    pub fn new() -> (app: App)
        ensures
            app.wf(),
            app.input@ == Seq::<char>::empty(),
            app.character_index == 0,
            app.current_screen == Screen::LoginScreen,
            app.username@ == Seq::<char>::empty(),
            app.current_room == 0,
            initial_directory(app.directory@),
    {
        App {
            input: String::new(),
            character_index: 0,
            current_screen: Screen::LoginScreen,
            username: String::new(),
            current_room: 0,
            directory: Directory::new(),
        }
    }

    /// The cursor position clamped into the current input line.
    fn clamp_cursor(&self, pos: usize) -> (r: usize)
        ensures
            r == (if pos <= self.input@.len() {
                pos as int
            } else {
                self.input@.len() as int
            }),
    {
        let n = self.input.as_str().unicode_len();
        if pos < n {
            pos
        } else {
            n
        }
    }

    /// Moves the cursor one position left, stopping at the start.
    pub fn move_cursor_left(&mut self)
        requires
            old(self).wf(),
        ensures
            final(self).wf(),
            final(self).character_index == (if old(self).character_index > 0 {
                old(self).character_index - 1
            } else {
                0int
            }),
            final(self).input == old(self).input,
            final(self).current_screen == old(self).current_screen,
            final(self).username == old(self).username,
            final(self).current_room == old(self).current_room,
            final(self).directory == old(self).directory,
    {
        let moved = if self.character_index > 0 {
            self.character_index - 1
        } else {
            0
        };
        self.character_index = self.clamp_cursor(moved);
    }

    /// Moves the cursor one position right, stopping at the end.
    pub fn move_cursor_right(&mut self)
        requires
            old(self).wf(),
        ensures
            final(self).wf(),
            final(self).character_index == (if old(self).character_index < old(self).input@.len() {
                old(self).character_index + 1
            } else {
                old(self).character_index as int
            }),
            final(self).input == old(self).input,
            final(self).current_screen == old(self).current_screen,
            final(self).username == old(self).username,
            final(self).current_room == old(self).current_room,
            final(self).directory == old(self).directory,
    {
        let n = self.input.as_str().unicode_len();
        let moved = if self.character_index < n {
            self.character_index + 1
        } else {
            self.character_index
        };
        self.character_index = self.clamp_cursor(moved);
    }

    /// Puts the cursor back at the start of the line.
    fn reset_cursor(&mut self)
        ensures
            final(self).character_index == 0,
            final(self).input == old(self).input,
            final(self).current_screen == old(self).current_screen,
            final(self).username == old(self).username,
            final(self).current_room == old(self).current_room,
            final(self).directory == old(self).directory,
    {
        self.character_index = 0;
    }

    /// Inserts a character at the cursor and moves the cursor past it.
    pub fn enter_char(&mut self, new_char: char)
        requires
            old(self).wf(),
        ensures
            final(self).wf(),
            final(self).input@ == old(self).input@.subrange(
                0,
                old(self).character_index as int,
            ) + seq![new_char] + old(self).input@.subrange(
                old(self).character_index as int,
                old(self).input@.len() as int,
            ),
            final(self).character_index == old(self).character_index + 1,
            final(self).current_screen == old(self).current_screen,
            final(self).username == old(self).username,
            final(self).current_room == old(self).current_room,
            final(self).directory == old(self).directory,
    {
        let i = self.character_index;
        let n = self.input.as_str().unicode_len();
        let mut left = self.input.as_str().substring_char(0, i).to_owned();
        push_char(&mut left, new_char);
        let right = self.input.as_str().substring_char(i, n);
        left.append(right);
        self.input = left;
        let m = self.input.as_str().unicode_len();
        proof {
            assert(old(self).input@.subrange(0, i as int).push(new_char) =~= old(
                self,
            ).input@.subrange(0, i as int) + seq![new_char]);
            assert(m == old(self).input@.len() + 1);
        }
        self.character_index = i + 1;
    }

    /// Deletes the character before the cursor, when there is one, and
    /// moves the cursor back onto the gap.
    pub fn delete_char(&mut self)
        requires
            old(self).wf(),
        ensures
            final(self).wf(),
            old(self).character_index == 0 ==> *final(self) == *old(self),
            old(self).character_index > 0 ==> {
                &&& final(self).input@ == old(self).input@.subrange(
                    0,
                    old(self).character_index - 1,
                ) + old(self).input@.subrange(
                    old(self).character_index as int,
                    old(self).input@.len() as int,
                )
                &&& final(self).character_index == old(self).character_index - 1
            },
            final(self).current_screen == old(self).current_screen,
            final(self).username == old(self).username,
            final(self).current_room == old(self).current_room,
            final(self).directory == old(self).directory,
    {
        if self.character_index != 0 {
            let i = self.character_index;
            let n = self.input.as_str().unicode_len();
            let mut left = self.input.as_str().substring_char(0, i - 1).to_owned();
            let right = self.input.as_str().substring_char(i, n);
            left.append(right);
            self.input = left;
            self.character_index = i - 1;
        }
    }

    /// Clears the input line and puts the cursor at its start.
    pub fn clear_input(&mut self)
        requires
            old(self).wf(),
        ensures
            final(self).wf(),
            final(self).input@ == Seq::<char>::empty(),
            final(self).character_index == 0,
            final(self).current_screen == old(self).current_screen,
            final(self).username == old(self).username,
            final(self).current_room == old(self).current_room,
            final(self).directory == old(self).directory,
    {
        self.input = String::new();
        self.reset_cursor();
    }

    /// Appends the input line, prefixed by this user's name, to the log of
    /// the selected room, then clears the input. Without a selected room
    /// the directory is left alone and only the input is cleared.
    pub fn submit_public_room_message(&mut self)
        requires
            old(self).wf(),
        ensures
            final(self).wf(),
            final(self).input@ == Seq::<char>::empty(),
            final(self).character_index == 0,
            final(self).current_screen == old(self).current_screen,
            final(self).username == old(self).username,
            final(self).current_room == old(self).current_room,
            ({
                let pre = old(self).directory@;
                let line = chat_line(old(self).username@, old(self).input@);
                if old(self).current_room < pre.rooms.len() {
                    let room = pre.rooms[old(self).current_room as int];
                    final(self).directory@ == (DirectoryView {
                        public_messages: pre.public_messages.insert(
                            room,
                            log_at(pre.public_messages, room).push(line),
                        ),
                        ..pre
                    })
                } else {
                    final(self).directory@ == pre
                }
            }),
    {
        let line = self.username.clone().concat(": ").concat(self.input.as_str());
        if self.current_room < self.directory.rooms.len() {
            let room = self.directory.rooms[self.current_room].clone();
            self.directory.public_messages.append(&room, line);
            proof {
                let pre = old(self).directory@;
                assert(pre.rooms.contains(pre.rooms[old(self).current_room as int]));
                assert forall|k: Seq<char>|
                    self.directory@.public_messages.dom().contains(k) == self.directory@.rooms
                        .contains(k) by {
                    if k != pre.rooms[old(self).current_room as int] {
                        assert(pre.public_messages.dom().contains(k) == pre.rooms.contains(k));
                    }
                }
                assert(self.directory@ =~= (DirectoryView {
                    public_messages: pre.public_messages.insert(
                        pre.rooms[old(self).current_room as int],
                        log_at(pre.public_messages, pre.rooms[old(self).current_room as int]).push(
                            chat_line(old(self).username@, old(self).input@),
                        ),
                    ),
                    ..pre
                }));
            }
        }
        self.clear_input();
    }

    /// Appends the input line, prefixed by this user's name, to the log of
    /// the given direct-message topic, then clears the input.
    pub fn submit_private_message(&mut self, topic: String)
        requires
            old(self).wf(),
        ensures
            final(self).wf(),
            final(self).input@ == Seq::<char>::empty(),
            final(self).character_index == 0,
            final(self).current_screen == old(self).current_screen,
            final(self).username == old(self).username,
            final(self).current_room == old(self).current_room,
            final(self).directory@ == (DirectoryView {
                private_messages: old(self).directory@.private_messages.insert(
                    topic@,
                    log_at(old(self).directory@.private_messages, topic@).push(
                        chat_line(old(self).username@, old(self).input@),
                    ),
                ),
                ..old(self).directory@
            }),
    {
        let line = self.username.clone().concat(": ").concat(self.input.as_str());
        self.directory.private_messages.append(&topic, line);
        proof {
            assert(self.directory@ =~= (DirectoryView {
                private_messages: old(self).directory@.private_messages.insert(
                    topic@,
                    log_at(old(self).directory@.private_messages, topic@).push(
                        chat_line(old(self).username@, old(self).input@),
                    ),
                ),
                ..old(self).directory@
            }));
        }
        self.clear_input();
    }

    /// The peers with no resolved username yet, in peer order.
    fn missing_peers(&self) -> (q: Vec<String>)
        requires
            self.wf(),
        ensures
            q.deep_view() == username_query_list(self.directory@.peers, self.directory@.usernames),
    {
        let ghost peers_dv = self.directory@.peers;
        let ghost m = self.directory@.usernames;
        let mut q: Vec<String> = Vec::new();
        let n = self.directory.peers.len();
        let mut i: usize = 0;
        proof {
            assert(peers_dv.take(0) =~= Seq::<Seq<char>>::empty());
        }
        while i < n
            invariant
                i <= n,
                n == self.directory.peers@.len(),
                peers_dv == self.directory@.peers,
                m == self.directory@.usernames,
                self.wf(),
                q.deep_view() == username_query_list(peers_dv.take(i as int), m),
            decreases n - i,
        {
            let peer = &self.directory.peers[i];
            proof {
                assert(peers_dv.take(i + 1).drop_last() =~= peers_dv.take(i as int));
                assert(peers_dv.take(i + 1).last() == peers_dv[i as int]);
                assert(peer@ == peers_dv[i as int]);
            }
            if !self.directory.usernames.contains_key(peer) {
                let ghost pre = q.deep_view();
                q.push(peer.clone());
                proof {
                    assert(q.deep_view() =~= pre.push(peer@));
                }
            }
            i = i + 1;
        }
        proof {
            assert(peers_dv.take(n as int) =~= peers_dv);
        }
        q
    }

    /// One username reconciliation pass, guarded against overlap: while a
    /// pass holds the guard, a further call skips without looking at or
    /// changing anything, so no two passes ever overlap. Otherwise the
    /// guard is taken and held until `finish_username_update`, and the
    /// pass compares the count of resolved names with the count of peers
    /// not awaiting one: more names than peers prunes entries of departed
    /// peers; fewer, or any peer still awaiting, asks for a lookup of
    /// every peer without a name; equal counts with nobody awaiting is a
    /// no-op.
    pub fn update_usernames(&mut self) -> (pass: UsernamePass)
        requires
            old(self).wf(),
        ensures
            final(self).wf(),
            final(self).input == old(self).input,
            final(self).character_index == old(self).character_index,
            final(self).current_screen == old(self).current_screen,
            final(self).username == old(self).username,
            final(self).current_room == old(self).current_room,
            old(self).directory@.reconciliation_in_progress ==> pass is Skipped && *final(self)
                == *old(self),
            !old(self).directory@.reconciliation_in_progress ==> ({
                let pre = old(self).directory@;
                let known = pre.usernames.dom().len() as int;
                let expected = pre.peers.len() - pre.peers_awaiting_username.len();
                &&& final(self).directory@.reconciliation_in_progress
                &&& if known > expected {
                    pass is Pruned && final(self).directory@ == (DirectoryView {
                        usernames: pruned_usernames(pre.usernames, pre.peers),
                        reconciliation_in_progress: true,
                        ..pre
                    })
                } else if known < expected || pre.peers_awaiting_username.len() > 0 {
                    (pass matches UsernamePass::Query(q) && q.deep_view() == username_query_list(
                        pre.peers,
                        pre.usernames,
                    )) && final(self).directory@ == (DirectoryView {
                        reconciliation_in_progress: true,
                        ..pre
                    })
                } else {
                    pass is InSync && final(self).directory@ == (DirectoryView {
                        reconciliation_in_progress: true,
                        ..pre
                    })
                }
            }),
    {
        if self.directory.reconciliation_in_progress {
            return UsernamePass::Skipped;
        }
        self.directory.reconciliation_in_progress = true;
        proof {
            assert(self.directory@ =~= (DirectoryView {
                reconciliation_in_progress: true,
                ..old(self).directory@
            }));
            lemma_distinct_subset_len(
                self.directory@.peers_awaiting_username,
                self.directory@.peers,
            );
        }
        let known = self.directory.usernames.len();
        let expected = self.directory.peers.len() - self.directory.peers_awaiting_username.len();
        if known > expected {
            let kept = prune_usernames(&self.directory.usernames, &self.directory.peers);
            self.directory.usernames = kept;
            proof {
                assert(self.directory@ =~= (DirectoryView {
                    usernames: pruned_usernames(
                        old(self).directory@.usernames,
                        old(self).directory@.peers,
                    ),
                    reconciliation_in_progress: true,
                    ..old(self).directory@
                }));
            }
            UsernamePass::Pruned
        } else if known < expected {
            UsernamePass::Query(self.missing_peers())
        } else if self.directory.peers_awaiting_username.len() > 0 {
            UsernamePass::Query(self.missing_peers())
        } else {
            UsernamePass::InSync
        }
    }

    /// Releases the reconciliation guard once the pass's lookups have been
    /// issued; the next `update_usernames` call runs again.
    pub fn finish_username_update(&mut self)
        requires
            old(self).wf(),
        ensures
            final(self).wf(),
            final(self).input == old(self).input,
            final(self).character_index == old(self).character_index,
            final(self).current_screen == old(self).current_screen,
            final(self).username == old(self).username,
            final(self).current_room == old(self).current_room,
            final(self).directory@ == (DirectoryView {
                reconciliation_in_progress: false,
                ..old(self).directory@
            }),
    {
        self.directory.reconciliation_in_progress = false;
        proof {
            assert(self.directory@ =~= (DirectoryView {
                reconciliation_in_progress: false,
                ..old(self).directory@
            }));
        }
    }
}

} // verus!
