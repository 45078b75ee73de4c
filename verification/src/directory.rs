//! The shared directory: the one in-memory snapshot of peers, usernames,
//! rooms, message logs and pending file requests that the network handlers
//! mutate and the presentation layer reads.

use vstd::prelude::*;
use vstd::utf8::encode_utf8;
use crate::codec::decode_record;
use crate::codec::list_of_cbor;
use crate::codec::text_of_cbor;
use crate::codec::DirectoryRecord;
use crate::codec::SerializationError;
use crate::names::contains_name;
use crate::names::distinct;
use crate::names::lemma_push_contains;
use crate::names::lemma_push_distinct;
use crate::names::lemma_remove_first_props;
use crate::names::remove_first;
use crate::names::remove_name;
use crate::table::log_at;
use crate::table::Table;
use crate::topic::classify;
use crate::topic::dm_topic;
use crate::topic::derive_dm_topic;
use crate::topic::Classification;
use crate::topic::MAX_ROOM_NAME_BYTES;

verus! {

/// An inbound file request waiting for the local user to accept it. The
/// reply capability of the transport is carried as an opaque ticket that
/// the shell maps back to the channel it came in on.
pub struct RequestItem {
    pub peer_id: String,
    pub request_string: String,
    pub reply: u64,
}

/// The abstract value of a `RequestItem`.
#[verifier::ext_equal]
pub struct RequestItemView {
    pub peer_id: Seq<char>,
    pub request_string: Seq<char>,
    pub reply: u64,
}

impl View for RequestItem {
    type V = RequestItemView;

    open spec fn view(&self) -> RequestItemView {
        RequestItemView {
            peer_id: self.peer_id@,
            request_string: self.request_string@,
            reply: self.reply,
        }
    }
}

impl DeepView for RequestItem {
    type V = RequestItemView;

    open spec fn deep_view(&self) -> RequestItemView {
        self@
    }
}

/// The abstract value of the whole directory.
#[verifier::ext_equal]
pub struct DirectoryView {
    pub self_peer_id: Option<Seq<char>>,
    pub peers: Seq<Seq<char>>,
    pub peers_awaiting_username: Seq<Seq<char>>,
    pub usernames: Map<Seq<char>, Seq<char>>,
    pub rooms: Seq<Seq<char>>,
    pub public_messages: Map<Seq<char>, Seq<Seq<char>>>,
    pub private_messages: Map<Seq<char>, Seq<Seq<char>>>,
    pub pending_file_requests: Seq<RequestItemView>,
    pub connected_peers: u64,
    pub reconciliation_in_progress: bool,
}

/// The shared directory state.
pub struct Directory {
    /// This node's own peer identifier, once the transport has one.
    pub self_peer_id: Option<String>,
    /// Currently registered peers, in discovery order, each at most once.
    pub peers: Vec<String>,
    /// Peers whose username has not been resolved yet.
    pub peers_awaiting_username: Vec<String>,
    /// Resolved usernames, keyed by peer identifier.
    pub usernames: Table<String>,
    /// Known room names, in the order they became known.
    pub rooms: Vec<String>,
    /// Message log of each room; the keys are exactly the known rooms.
    pub public_messages: Table<Vec<String>>,
    /// Message log of each direct-message topic.
    pub private_messages: Table<Vec<String>>,
    /// Inbound file requests awaiting a local accept.
    pub pending_file_requests: Vec<RequestItem>,
    /// Count of discovery announcements minus expiries.
    pub connected_peers: u64,
    /// Guard of the username reconciliation pass: while it is set, a new
    /// pass is skipped rather than run concurrently.
    pub reconciliation_in_progress: bool,
}

impl View for Directory {
    type V = DirectoryView;

    open spec fn view(&self) -> DirectoryView {
        DirectoryView {
            self_peer_id: self.self_peer_id.deep_view(),
            peers: self.peers.deep_view(),
            peers_awaiting_username: self.peers_awaiting_username.deep_view(),
            usernames: self.usernames@,
            rooms: self.rooms.deep_view(),
            public_messages: self.public_messages@,
            private_messages: self.private_messages@,
            pending_file_requests: self.pending_file_requests.deep_view(),
            connected_peers: self.connected_peers,
            reconciliation_in_progress: self.reconciliation_in_progress,
        }
    }
}

impl Directory {
    /// The directory's invariant: the tables are well formed, peers and
    /// rooms are sets kept in order, every peer awaiting a username is a
    /// registered peer, and the public message logs are exactly the known
    /// rooms.
    pub open spec fn wf(&self) -> bool {
        &&& self.usernames.wf()
        &&& self.public_messages.wf()
        &&& self.private_messages.wf()
        &&& distinct(self@.peers)
        &&& distinct(self@.peers_awaiting_username)
        &&& distinct(self@.rooms)
        &&& forall|p: Seq<char>|
            self@.peers_awaiting_username.contains(p) ==> self@.peers.contains(p)
        &&& forall|k: Seq<char>|
            self@.public_messages.dom().contains(k) <==> self@.rooms.contains(k)
    }

    /// A fresh directory: no peers, no usernames, no pending requests, and
    /// the four built-in rooms, each with an empty log.
    pub fn new() -> (d: Directory)
        ensures
            d.wf(),
            initial_directory(d@),
    {
        proof {
            reveal_strlit("global");
            reveal_strlit("engineering");
            reveal_strlit("sciences");
            reveal_strlit("arts");
        }
        let mut rooms: Vec<String> = Vec::new();
        rooms.push("global".to_owned());
        rooms.push("engineering".to_owned());
        rooms.push("sciences".to_owned());
        rooms.push("arts".to_owned());
        let mut public_messages: Table<Vec<String>> = Table::new();
        let mut i: usize = 0;
        let n = rooms.len();
        while i < n
            invariant
                i <= n,
                n == rooms@.len(),
                rooms.deep_view() =~= seq!["global"@, "engineering"@, "sciences"@, "arts"@],
                public_messages.wf(),
                forall|k: Seq<char>|
                    public_messages@.dom().contains(k) <==> rooms.deep_view().take(
                        i as int,
                    ).contains(k),
                forall|k: Seq<char>|
                    public_messages@.dom().contains(k) ==> public_messages@[k]
                        == Seq::<Seq<char>>::empty(),
            decreases n - i,
        {
            let room = rooms[i].clone();
            public_messages.ensure_log(&room);
            proof {
                let pre = rooms.deep_view().take(i as int);
                let post = rooms.deep_view().take(i + 1);
                let x = rooms.deep_view()[i as int];
                assert(post =~= pre.push(x));
                assert(post[i as int] == x);
                assert(post.contains(x));
                assert forall|k: Seq<char>| post.contains(k) implies pre.contains(k) || k == x by {
                    let j = choose|j: int| 0 <= j < post.len() && post[j] == k;
                    if j < i {
                        assert(pre[j] == k);
                    }
                }
                assert forall|k: Seq<char>| pre.contains(k) implies post.contains(k) by {
                    let j = choose|j: int| 0 <= j < pre.len() && pre[j] == k;
                    assert(post[j] == k);
                }
            }
            i = i + 1;
        }
        let d = Directory {
            self_peer_id: None,
            peers: Vec::new(),
            peers_awaiting_username: Vec::new(),
            usernames: Table::new(),
            rooms,
            public_messages,
            private_messages: Table::new(),
            pending_file_requests: Vec::new(),
            connected_peers: 0,
            reconciliation_in_progress: false,
        };
        proof {
            let target = Map::<Seq<char>, Seq<Seq<char>>>::empty().insert(
                "global"@,
                Seq::empty(),
            ).insert("engineering"@, Seq::empty()).insert("sciences"@, Seq::empty()).insert(
                "arts"@,
                Seq::empty(),
            );
            assert(d.rooms.deep_view().take(4) =~= d.rooms.deep_view());
            assert(d@.public_messages =~= target);
            assert(d@.peers =~= Seq::<Seq<char>>::empty());
            assert(d@.peers_awaiting_username =~= Seq::<Seq<char>>::empty());
            assert(d@.pending_file_requests =~= Seq::<RequestItemView>::empty());
            reveal_strlit("global");
            reveal_strlit("engineering");
            reveal_strlit("sciences");
            reveal_strlit("arts");
            let lit = seq!["global"@, "engineering"@, "sciences"@, "arts"@];
            assert("global"@.len() == 6);
            assert("engineering"@.len() == 11);
            assert("sciences"@.len() == 8);
            assert("arts"@.len() == 4);
            assert(d@.rooms == lit);
            assert(distinct(lit)) by {
                assert(lit[0] != lit[1] && lit[0] != lit[2] && lit[0] != lit[3] && lit[1]
                    != lit[2] && lit[1] != lit[3] && lit[2] != lit[3]);
            }
        }
        d
    }

    /// Records the transport's own peer identifier.
    pub fn set_self_peer_id(&mut self, id: String)
        requires
            old(self).wf(),
        ensures
            final(self).wf(),
            final(self)@ == (DirectoryView { self_peer_id: Some(id@), ..old(self)@ }),
    {
        self.self_peer_id = Some(id);
        proof {
            assert(self@ =~= (DirectoryView { self_peer_id: Some(self@.self_peer_id->0), ..old(self)@ }));
        }
    }
}

/// The starting directory: nothing discovered yet, nothing pending, and
/// the four built-in rooms, each with an empty log.
pub open spec fn initial_directory(v: DirectoryView) -> bool {
    &&& v.self_peer_id is None
    &&& v.peers == Seq::<Seq<char>>::empty()
    &&& v.peers_awaiting_username == Seq::<Seq<char>>::empty()
    &&& v.usernames == Map::<Seq<char>, Seq<char>>::empty()
    &&& v.rooms == seq!["global"@, "engineering"@, "sciences"@, "arts"@]
    &&& v.public_messages == Map::<Seq<char>, Seq<Seq<char>>>::empty().insert(
        "global"@,
        Seq::empty(),
    ).insert("engineering"@, Seq::empty()).insert("sciences"@, Seq::empty()).insert(
        "arts"@,
        Seq::empty(),
    )
    &&& v.private_messages == Map::<Seq<char>, Seq<Seq<char>>>::empty()
    &&& v.pending_file_requests == Seq::<RequestItemView>::empty()
    &&& v.connected_peers == 0
    &&& !v.reconciliation_in_progress
}

/// What discovering `peer` does to the directory: the peer joins the peer
/// set and the awaiting set (each only if absent), the connected count
/// rises, and the direct-message topic shared with this node has its
/// message log initialized to empty.
pub open spec fn discovered_step(pre: DirectoryView, peer: Seq<char>) -> DirectoryView {
    let dm = dm_topic(pre.self_peer_id->0, peer);
    DirectoryView {
        peers: if pre.peers.contains(peer) {
            pre.peers
        } else {
            pre.peers.push(peer)
        },
        peers_awaiting_username: if pre.peers_awaiting_username.contains(peer) {
            pre.peers_awaiting_username
        } else {
            pre.peers_awaiting_username.push(peer)
        },
        private_messages: pre.private_messages.insert(dm, Seq::empty()),
        connected_peers: if pre.connected_peers < u64::MAX {
            (pre.connected_peers + 1) as u64
        } else {
            u64::MAX
        },
        ..pre
    }
}

/// What a peer's discovery record expiring does: the connected count
/// falls; registration and logs stay until the connection closes.
pub open spec fn expired_step(pre: DirectoryView) -> DirectoryView {
    DirectoryView {
        connected_peers: if pre.connected_peers > 0 {
            (pre.connected_peers - 1) as u64
        } else {
            0
        },
        ..pre
    }
}

/// What a closed connection does: the peer leaves the peer set and the
/// awaiting set; absent peers make this a no-op.
pub open spec fn closed_step(pre: DirectoryView, peer: Seq<char>) -> DirectoryView {
    DirectoryView {
        peers: remove_first(pre.peers, peer),
        peers_awaiting_username: remove_first(pre.peers_awaiting_username, peer),
        ..pre
    }
}

/// What an inbound pub/sub message does: a short topic is a room (created
/// on first sight) and the line joins its log; a long topic is a
/// direct-message channel.
pub open spec fn receive_message_step(
    pre: DirectoryView,
    topic: Seq<char>,
    text: Seq<char>,
) -> DirectoryView {
    if encode_utf8(topic).len() <= MAX_ROOM_NAME_BYTES {
        DirectoryView {
            rooms: if pre.rooms.contains(topic) {
                pre.rooms
            } else {
                pre.rooms.push(topic)
            },
            public_messages: pre.public_messages.insert(
                topic,
                log_at(pre.public_messages, topic).push(text),
            ),
            ..pre
        }
    } else {
        DirectoryView {
            private_messages: pre.private_messages.insert(
                topic,
                log_at(pre.private_messages, topic).push(text),
            ),
            ..pre
        }
    }
}

/// What a resolved username record does: the name is stored under the
/// record's key and that peer stops awaiting a username.
pub open spec fn merge_username_step(
    pre: DirectoryView,
    key: Seq<char>,
    name: Seq<char>,
) -> DirectoryView {
    DirectoryView {
        usernames: pre.usernames.insert(key, name),
        peers_awaiting_username: remove_first(pre.peers_awaiting_username, key),
        ..pre
    }
}

/// What one room from a fetched room list does: an unknown name joins the
/// room list with an empty log; a known one changes nothing.
pub open spec fn add_room_step(pre: DirectoryView, room: Seq<char>) -> DirectoryView {
    if pre.rooms.contains(room) {
        pre
    } else {
        DirectoryView {
            rooms: pre.rooms.push(room),
            public_messages: pre.public_messages.insert(room, Seq::empty()),
            ..pre
        }
    }
}

/// What a whole fetched room list does, first entry first.
pub open spec fn merge_rooms_step(pre: DirectoryView, list: Seq<Seq<char>>) -> DirectoryView
    decreases list.len(),
{
    if list.len() == 0 {
        pre
    } else {
        add_room_step(merge_rooms_step(pre, list.drop_last()), list.last())
    }
}

/// The rooms of a fetched list that were actually new, in list order:
/// exactly those whose pub/sub topics want subscribing.
pub open spec fn added_rooms(pre: DirectoryView, list: Seq<Seq<char>>) -> Seq<Seq<char>>
    decreases list.len(),
{
    if list.len() == 0 {
        Seq::empty()
    } else {
        let done = added_rooms(pre, list.drop_last());
        if merge_rooms_step(pre, list.drop_last()).rooms.contains(list.last()) {
            done
        } else {
            done.push(list.last())
        }
    }
}

/// Law: a username pushed under a key and later fetched resolves to that
/// name: merging the looked-up record maps the key to exactly the pushed
/// name, and that peer stops awaiting a username.
pub proof fn lemma_pushed_username_resolves(pre: DirectoryView, key: Seq<char>, name: Seq<char>)
    requires
        distinct(pre.peers_awaiting_username),
    ensures
        merge_username_step(pre, key, name).usernames.dom().contains(key),
        merge_username_step(pre, key, name).usernames[key] == name,
        !merge_username_step(pre, key, name).peers_awaiting_username.contains(key),
{
    lemma_remove_first_props(pre.peers_awaiting_username, key);
}

/// Law: discovery registers the peer and opens a fresh channel: after the
/// step the peer is registered and awaiting a username, the derived
/// direct-message topic has an empty log, the connected count has risen
/// (stopping only at the machine limit), and the resolved usernames and
/// the room list are untouched.
pub proof fn lemma_discovered_registers(pre: DirectoryView, peer: Seq<char>)
    ensures
        discovered_step(pre, peer).peers.contains(peer),
        discovered_step(pre, peer).peers_awaiting_username.contains(peer),
        discovered_step(pre, peer).private_messages[dm_topic(pre.self_peer_id->0, peer)]
            == Seq::<Seq<char>>::empty(),
        discovered_step(pre, peer).connected_peers == (if pre.connected_peers < u64::MAX {
            pre.connected_peers + 1
        } else {
            u64::MAX as int
        }),
        discovered_step(pre, peer).usernames == pre.usernames,
        discovered_step(pre, peer).rooms == pre.rooms,
        discovered_step(pre, peer).public_messages == pre.public_messages,
{
    lemma_push_contains(pre.peers, peer);
    lemma_push_contains(pre.peers_awaiting_username, peer);
}

impl Directory {
    /// Registers a discovered peer and returns the direct-message topic
    /// derived for it, for the caller to subscribe.
    pub fn peer_discovered(&mut self, peer: &String) -> (dm: String)
        requires
            old(self).wf(),
            old(self)@.self_peer_id is Some,
        ensures
            final(self).wf(),
            final(self)@ == discovered_step(old(self)@, peer@),
            dm@ == dm_topic(old(self)@.self_peer_id->0, peer@),
    {
        let self_id = self.self_peer_id.as_ref().unwrap().clone();
        let dm = derive_dm_topic(self_id.as_str(), peer.as_str());
        if !contains_name(&self.peers, peer) {
            proof {
                lemma_push_contains(self.peers.deep_view(), peer@);
                lemma_push_distinct(self.peers.deep_view(), peer@);
            }
            let ghost pre = self.peers.deep_view();
            self.peers.push(peer.clone());
            proof {
                assert(self.peers.deep_view() =~= pre.push(peer@));
            }
        }
        if !contains_name(&self.peers_awaiting_username, peer) {
            proof {
                lemma_push_contains(self.peers_awaiting_username.deep_view(), peer@);
                lemma_push_distinct(self.peers_awaiting_username.deep_view(), peer@);
            }
            let ghost pre = self.peers_awaiting_username.deep_view();
            self.peers_awaiting_username.push(peer.clone());
            proof {
                assert(self.peers_awaiting_username.deep_view() =~= pre.push(peer@));
            }
        }
        if self.connected_peers < u64::MAX {
            self.connected_peers = self.connected_peers + 1;
        }
        let empty_log: Vec<String> = Vec::new();
        proof {
            assert(empty_log.deep_view() =~= Seq::<Seq<char>>::empty());
        }
        self.private_messages.insert(dm.clone(), empty_log);
        proof {
            lemma_push_contains(old(self)@.peers, peer@);
            lemma_push_contains(old(self)@.peers_awaiting_username, peer@);
            assert(self@ =~= discovered_step(old(self)@, peer@));
            assert forall|p: Seq<char>| self@.peers_awaiting_username.contains(p) implies self@
                .peers.contains(p) by {
                if p != peer@ {
                    assert(old(self)@.peers_awaiting_username.contains(p));
                }
            }
        }
        dm
    }

    /// Notes a peer's discovery record expiring.
    pub fn peer_expired(&mut self)
        requires
            old(self).wf(),
        ensures
            final(self).wf(),
            final(self)@ == expired_step(old(self)@),
    {
        if self.connected_peers > 0 {
            self.connected_peers = self.connected_peers - 1;
        }
        proof {
            assert(self@ =~= expired_step(old(self)@));
        }
    }

    /// Deregisters a peer whose connection closed; a no-op when the peer
    /// is unknown.
    pub fn connection_closed(&mut self, peer: &String)
        requires
            old(self).wf(),
        ensures
            final(self).wf(),
            final(self)@ == closed_step(old(self)@, peer@),
    {
        proof {
            lemma_remove_first_props(self.peers.deep_view(), peer@);
            lemma_remove_first_props(self.peers_awaiting_username.deep_view(), peer@);
        }
        remove_name(&mut self.peers, peer);
        remove_name(&mut self.peers_awaiting_username, peer);
        proof {
            assert(self@ =~= closed_step(old(self)@, peer@));
            assert forall|p: Seq<char>| self@.peers_awaiting_username.contains(p) implies self@
                .peers.contains(p) by {
                assert(p != peer@);
                assert(old(self)@.peers_awaiting_username.contains(p));
            }
        }
    }

    /// Stores an inbound pub/sub line under its topic, classifying the
    /// topic as a room or a direct-message channel by its length.
    pub fn receive_message(&mut self, topic: &String, text: String)
        requires
            old(self).wf(),
        ensures
            final(self).wf(),
            final(self)@ == receive_message_step(old(self)@, topic@, text@),
    {
        match classify(topic.as_str()) {
            Classification::Public => {
                if !contains_name(&self.rooms, topic) {
                    proof {
                        lemma_push_contains(self.rooms.deep_view(), topic@);
                        lemma_push_distinct(self.rooms.deep_view(), topic@);
                    }
                    let ghost pre = self.rooms.deep_view();
                    self.rooms.push(topic.clone());
                    proof {
                        assert(self.rooms.deep_view() =~= pre.push(topic@));
                    }
                }
                self.public_messages.append(topic, text);
                proof {
                    lemma_push_contains(old(self)@.rooms, topic@);
                    assert(self@ =~= receive_message_step(old(self)@, topic@, text@));
                    assert forall|k: Seq<char>|
                        self@.public_messages.dom().contains(k) == self@.rooms.contains(
                            k,
                        ) by {
                        if k != topic@ {
                            assert(old(self)@.public_messages.dom().contains(k) == old(self)@.rooms
                                .contains(k));
                        }
                    }
                }
            },
            Classification::Private => {
                self.private_messages.append(topic, text);
                proof {
                    assert(self@ =~= receive_message_step(old(self)@, topic@, text@));
                }
            },
        }
    }

    /// Merges a resolved username record into the directory.
    pub fn merge_username(&mut self, key: &String, name: String)
        requires
            old(self).wf(),
        ensures
            final(self).wf(),
            final(self)@ == merge_username_step(old(self)@, key@, name@),
    {
        proof {
            lemma_remove_first_props(self.peers_awaiting_username.deep_view(), key@);
        }
        self.usernames.insert(key.clone(), name);
        remove_name(&mut self.peers_awaiting_username, key);
        proof {
            assert(self@ =~= merge_username_step(old(self)@, key@, name@));
            assert forall|p: Seq<char>| self@.peers_awaiting_username.contains(p) implies self@
                .peers.contains(p) by {
                assert(p != key@ ==> old(self)@.peers_awaiting_username.contains(p));
            }
        }
    }

    /// Merges a fetched room list: every room not yet known is added with
    /// an empty log, and the list of those newcomers is returned so the
    /// caller can subscribe their topics.
    pub fn merge_rooms(&mut self, list: &Vec<String>) -> (new_rooms: Vec<String>)
        requires
            old(self).wf(),
        ensures
            final(self).wf(),
            final(self)@ == merge_rooms_step(old(self)@, list.deep_view()),
            new_rooms.deep_view() == added_rooms(old(self)@, list.deep_view()),
    {
        let ghost ldv = list.deep_view();
        let mut new_rooms: Vec<String> = Vec::new();
        let n = list.len();
        let mut i: usize = 0;
        proof {
            assert(ldv.take(0) =~= Seq::<Seq<char>>::empty());
        }
        while i < n
            invariant
                i <= n,
                n == list@.len(),
                ldv == list.deep_view(),
                self.wf(),
                self@ == merge_rooms_step(old(self)@, ldv.take(i as int)),
                new_rooms.deep_view() == added_rooms(old(self)@, ldv.take(i as int)),
            decreases n - i,
        {
            let ghost pre = self@;
            let room = &list[i];
            proof {
                assert(ldv.take(i + 1).drop_last() =~= ldv.take(i as int));
                assert(ldv.take(i + 1).last() == ldv[i as int]);
                assert(room@ == ldv[i as int]);
            }
            if !contains_name(&self.rooms, room) {
                proof {
                    lemma_push_contains(self.rooms.deep_view(), room@);
                    lemma_push_distinct(self.rooms.deep_view(), room@);
                }
                let ghost pre_rooms = self.rooms.deep_view();
                self.rooms.push(room.clone());
                proof {
                    assert(self.rooms.deep_view() =~= pre_rooms.push(room@));
                }
                self.public_messages.ensure_log(room);
                let ghost pre_added = new_rooms.deep_view();
                new_rooms.push(room.clone());
                proof {
                    assert(new_rooms.deep_view() =~= pre_added.push(room@));
                    assert(!pre.public_messages.dom().contains(room@));
                    assert(self@ =~= add_room_step(pre, room@));
                    assert forall|k: Seq<char>|
                        self@.public_messages.dom().contains(k) == self@.rooms.contains(
                            k,
                        ) by {
                        if k != room@ {
                            assert(pre.public_messages.dom().contains(k) == pre.rooms.contains(k));
                        }
                    }
                }
            } else {
                proof {
                    assert(self@ =~= add_room_step(pre, room@));
                }
            }
            i = i + 1;
        }
        proof {
            assert(ldv.take(n as int) =~= ldv);
        }
        new_rooms
    }

    /// Applies a fetched directory record: a username merges into the
    /// username registry, a room list merges into the room set (returning
    /// the new rooms), and bytes of neither shape leave the directory
    /// untouched.
    pub fn apply_record(&mut self, key: &String, value: &Vec<u8>) -> (r: Result<
        Vec<String>,
        SerializationError,
    >)
        requires
            old(self).wf(),
        ensures
            final(self).wf(),
            match r {
                Ok(new_rooms) => match text_of_cbor(value@) {
                    Some(name) => final(self)@ == merge_username_step(old(self)@, key@, name)
                        && new_rooms.deep_view() == Seq::<Seq<char>>::empty(),
                    None => {
                        &&& list_of_cbor(value@) is Some
                        &&& final(self)@ == merge_rooms_step(
                            old(self)@,
                            list_of_cbor(value@)->0,
                        )
                        &&& new_rooms.deep_view() == added_rooms(
                            old(self)@,
                            list_of_cbor(value@)->0,
                        )
                    },
                },
                Err(_) => text_of_cbor(value@) is None && list_of_cbor(value@) is None
                    && final(self)@ == old(self)@,
            },
    {
        match decode_record(value) {
            Ok(DirectoryRecord::Username(name)) => {
                self.merge_username(key, name);
                let empty: Vec<String> = Vec::new();
                proof {
                    assert(empty.deep_view() =~= Seq::<Seq<char>>::empty());
                }
                Ok(empty)
            },
            Ok(DirectoryRecord::RoomList(list)) => {
                let added = self.merge_rooms(&list);
                Ok(added)
            },
            Err(e) => Err(e),
        }
    }

    /// Queues an inbound file request until the local user accepts it.
    pub fn add_request(&mut self, item: RequestItem)
        requires
            old(self).wf(),
        ensures
            final(self).wf(),
            final(self)@ == (DirectoryView {
                pending_file_requests: old(self)@.pending_file_requests.push(item@),
                ..old(self)@
            }),
    {
        let ghost pre = self.pending_file_requests.deep_view();
        let ghost item_view = item@;
        self.pending_file_requests.push(item);
        proof {
            assert(self.pending_file_requests.deep_view() =~= pre.push(item_view));
            assert(self@ =~= (DirectoryView {
                pending_file_requests: old(self)@.pending_file_requests.push(item_view),
                ..old(self)@
            }));
        }
    }

    /// Takes the pending request at `index` out of the queue, when there
    /// is one: the accept action that precedes sending a response.
    pub fn take_request(&mut self, index: usize) -> (r: Option<RequestItem>)
        requires
            old(self).wf(),
        ensures
            final(self).wf(),
            match r {
                Some(item) => {
                    &&& index < old(self)@.pending_file_requests.len()
                    &&& item@ == old(self)@.pending_file_requests[index as int]
                    &&& final(self)@ == (DirectoryView {
                        pending_file_requests: old(self)@.pending_file_requests.remove(
                            index as int,
                        ),
                        ..old(self)@
                    })
                },
                None => index >= old(self)@.pending_file_requests.len() && *final(self) == *old(
                    self,
                ),
            },
    {
        if index < self.pending_file_requests.len() {
            let ghost pre = self.pending_file_requests.deep_view();
            let item = self.pending_file_requests.remove(index);
            proof {
                assert(self.pending_file_requests.deep_view() =~= pre.remove(index as int));
            }
            Some(item)
        } else {
            None
        }
    }
}

} // verus!
