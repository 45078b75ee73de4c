//! The network actor's decision core: commands from the presentation
//! layer become protocol-stack calls, and protocol events become directory
//! updates plus follow-up protocol calls. The cooperative loop that owns
//! the protocol stack performs what these functions decide.

use vstd::prelude::*;
use vstd::string::StrSliceExecFns;
use vstd::string::StringExecFns;
use vstd::string::StringSliceAdditionalSpecFns;
use vstd::utf8::encode_utf8;
use crate::codec::bytes_to_text;
use crate::codec::cbor_of_list;
use crate::codec::cbor_of_text;
use crate::codec::decode_list;
use crate::codec::encode_list;
use crate::codec::encode_text;
use crate::codec::list_of_cbor;
use crate::codec::lossy_text_of;
use crate::codec::text_of_cbor;
use crate::directory::added_rooms;
use crate::directory::closed_step;
use crate::directory::discovered_step;
use crate::directory::expired_step;
use crate::directory::merge_rooms_step;
use crate::directory::merge_username_step;
use crate::directory::receive_message_step;
use crate::directory::Directory;
use crate::directory::DirectoryView;
use crate::directory::RequestItem;
use crate::directory::RequestItemView;
use crate::names::contains_name;
use crate::topic::dm_topic;

verus! {

/// The operations the presentation layer may ask of the network actor.
pub enum Command {
    StartListening { addr: String },
    SendMessage { message: String, topic: String },
    RequestFile { request: String, peer: String },
    RespondFile { filename: String, filepath: String, reply: u64 },
    PushUsername { username: String },
    GetUsername { peer_id: String },
    GetRooms,
    CreateRoom { chat_name: String },
}

/// The protocol-stack call a command turns into.
pub enum CommandAction {
    Listen { addr: String },
    Publish { topic: String, data: Vec<u8> },
    SendRequest { peer: String, request: String },
    SendResponse { reply: u64, filename: String, data: Vec<u8> },
    PutRecord { key: String, value: Vec<u8> },
    GetRecord { key: String },
    Nothing,
}

/// What the actor reads from its surroundings before planning a command:
/// its own peer identifier, the local replica of the room-list record,
/// and the bytes of a file about to be served (when the read succeeded).
pub struct CommandContext {
    pub self_peer_id: String,
    pub room_record: Option<Vec<u8>>,
    pub file_bytes: Option<Vec<u8>>,
}

/// The well-known key under which the room list is stored.
pub fn room_store_key() -> (k: String)
    ensures
        k@ == "room_store"@,
{
    "room_store".to_owned()
}

/// A room list with `name` appended, unless it is already there.
pub open spec fn room_list_insert(l: Seq<Seq<char>>, name: Seq<char>) -> Seq<Seq<char>> {
    if l.contains(name) {
        l
    } else {
        l.push(name)
    }
}

/// How often `x` occurs in `l`.
pub open spec fn count_of(l: Seq<Seq<char>>, x: Seq<char>) -> nat
    decreases l.len(),
{
    if l.len() == 0 {
        0
    } else {
        count_of(l.drop_last(), x) + (if l.last() == x {
            1nat
        } else {
            0nat
        })
    }
}

/// An element is absent exactly when it occurs zero times.
pub proof fn lemma_count_zero(l: Seq<Seq<char>>, x: Seq<char>)
    ensures
        count_of(l, x) == 0 <==> !l.contains(x),
    decreases l.len(),
{
    if l.len() > 0 {
        lemma_count_zero(l.drop_last(), x);
        assert(forall|j: int| 0 <= j < l.len() - 1 ==> l.drop_last()[j] == l[j]);
        if l.contains(x) && l.last() != x {
            let j = choose|j: int| 0 <= j < l.len() && l[j] == x;
            assert(l.drop_last()[j] == x);
        }
        if l.drop_last().contains(x) {
            let j = choose|j: int| 0 <= j < l.len() - 1 && l.drop_last()[j] == x;
            assert(l[j] == x);
        }
    }
}

/// Creating a room is idempotent for a single writer: inserting a name a
/// second time changes nothing, and a name absent from the list occurs in
/// the result exactly once.
pub proof fn lemma_room_list_insert_idempotent(l: Seq<Seq<char>>, name: Seq<char>)
    ensures
        room_list_insert(room_list_insert(l, name), name) == room_list_insert(l, name),
        !l.contains(name) ==> count_of(room_list_insert(l, name), name) == 1,
{
    lemma_count_zero(l, name);
    if !l.contains(name) {
        let l2 = l.push(name);
        assert(l2.last() == name);
        assert(l2.contains(name));
        assert(l2.drop_last() =~= l);
        assert(count_of(l2, name) == count_of(l, name) + 1);
    } else {
        assert(room_list_insert(l, name) == l);
    }
}

/// Exactly which protocol call `plan_command` owes for each command.
pub open spec fn plan_ok(cmd: Command, ctx: CommandContext, act: CommandAction) -> bool {
    match cmd {
        Command::StartListening { addr } => act matches CommandAction::Listen { addr: a } && a@
            == addr@,
        Command::SendMessage { message, topic } => act matches CommandAction::Publish {
            topic: t,
            data,
        } && t@ == topic@ && data@ == encode_utf8(message@),
        Command::RequestFile { request, peer } => act matches CommandAction::SendRequest {
            peer: p,
            request: r,
        } && p@ == peer@ && r@ == request@,
        Command::RespondFile { filename, filepath: _, reply } => act
            matches CommandAction::SendResponse { reply: rp, filename: f, data } && rp == reply
            && f@ == filename@ && data@ == (match ctx.file_bytes {
            Some(b) => b@,
            None => Seq::<u8>::empty(),
        }),
        Command::PushUsername { username } => act matches CommandAction::PutRecord {
            key,
            value,
        } && key@ == ctx.self_peer_id@ && value@ == cbor_of_text(username@),
        Command::GetUsername { peer_id } => act matches CommandAction::GetRecord { key } && key@
            == peer_id@,
        Command::GetRooms => act matches CommandAction::GetRecord { key } && key@
            == "room_store"@,
        Command::CreateRoom { chat_name } => match ctx.room_record {
            None => act matches CommandAction::PutRecord { key, value } && key@ == "room_store"@
                && value@ == cbor_of_list(seq![chat_name@]),
            Some(bytes) => match list_of_cbor(bytes@) {
                None => act is Nothing,
                Some(l) => if l.contains(chat_name@) {
                    act is Nothing
                } else {
                    act matches CommandAction::PutRecord { key, value } && key@ == "room_store"@
                        && value@ == cbor_of_list(room_list_insert(l, chat_name@))
                },
            },
        },
    }
}

/// Turns one command into the protocol call it stands for. Listening,
/// publishing, file requests and record lookups translate one to one; a
/// file response falls back to an empty payload when the local read
/// failed; creating a room reads the local room-list replica, drops the
/// command when the name is already listed or the replica does not
/// decode, and writes back the extended list otherwise.
pub fn plan_command(cmd: Command, ctx: CommandContext) -> (act: CommandAction)
    ensures
        plan_ok(cmd, ctx, act),
{
    match cmd {
        Command::StartListening { addr } => CommandAction::Listen { addr },
        Command::SendMessage { message, topic } => {
            let data = message.as_str().as_bytes_vec();
            CommandAction::Publish { topic, data }
        },
        Command::RequestFile { request, peer } => CommandAction::SendRequest { peer, request },
        Command::RespondFile { filename, filepath: _, reply } => {
            let data = match ctx.file_bytes {
                Some(b) => b,
                None => {
                    let empty: Vec<u8> = Vec::new();
                    proof {
                        assert(empty@ =~= Seq::<u8>::empty());
                    }
                    empty
                },
            };
            CommandAction::SendResponse { reply, filename, data }
        },
        Command::PushUsername { username } => {
            let value = encode_text(&username);
            CommandAction::PutRecord { key: ctx.self_peer_id, value }
        },
        Command::GetUsername { peer_id } => CommandAction::GetRecord { key: peer_id },
        Command::GetRooms => CommandAction::GetRecord { key: room_store_key() },
        Command::CreateRoom { chat_name } => {
            match &ctx.room_record {
                None => {
                    let mut list: Vec<String> = Vec::new();
                    list.push(chat_name);
                    proof {
                        assert(list.deep_view() =~= seq![list@[0]@]);
                    }
                    let value = encode_list(&list);
                    CommandAction::PutRecord { key: room_store_key(), value }
                },
                Some(bytes) => {
                    match decode_list(bytes) {
                        None => CommandAction::Nothing,
                        Some(list) => {
                            if contains_name(&list, &chat_name) {
                                CommandAction::Nothing
                            } else {
                                let ghost pre = list.deep_view();
                                let mut list = list;
                                list.push(chat_name);
                                proof {
                                    assert(list.deep_view() =~= pre.push(
                                        list@[pre.len() as int]@,
                                    ));
                                }
                                let value = encode_list(&list);
                                CommandAction::PutRecord { key: room_store_key(), value }
                            }
                        },
                    }
                },
            }
        },
    }
}

/// A protocol event, reduced to the plain values the core reads from it.
pub enum NetEvent {
    /// An inbound pub/sub message.
    Message { topic: String, data: Vec<u8> },
    /// LAN discovery announced a peer at an address.
    Discovered { peer: String, addr: String },
    /// A peer's discovery record lapsed.
    Expired { peer: String },
    /// A connection to a peer closed.
    ConnectionClosed { peer: String },
    /// A distributed lookup completed with a record.
    RecordFound { key: String, value: Vec<u8> },
    /// A record write completed; logged only.
    RecordStored { key: String },
    /// A distributed lookup failed; logged only.
    LookupFailed,
    /// A peer asked for a file over the exchange protocol.
    RequestReceived { peer: String, request: String, reply: u64 },
    /// A peer answered a file request of ours.
    ResponseReceived { filename: String, data: Vec<u8> },
    /// An inbound exchange failed; logged only.
    InboundFailure,
    /// An outbound exchange failed; logged only.
    OutboundFailure,
    /// The transport began listening on an address.
    NewListenAddr { addr: String },
    /// Anything else the protocol stack reports; logged and dropped.
    Other,
}

/// A protocol-stack call that handling an event asks for.
pub enum NetAction {
    AddExplicitPeer { peer: String },
    RemoveExplicitPeer { peer: String },
    AddAddress { peer: String, addr: String },
    Subscribe { topic: String },
    SaveFile { filename: String, data: Vec<u8> },
}

/// Whether `acts` is exactly one `Subscribe` per topic of `topics`, in
/// order.
pub open spec fn all_subscribes(acts: Seq<NetAction>, topics: Seq<Seq<char>>) -> bool {
    &&& acts.len() == topics.len()
    &&& forall|i: int|
        0 <= i < acts.len() ==> (#[trigger] acts[i] matches NetAction::Subscribe { topic }
            && topic@ == topics[i])
}

/// The name an inbound file is saved under: the requested name behind a
/// fixed prefix.
pub fn saved_file_name(filename: &String) -> (r: String)
    ensures
        r@ == "new_"@ + filename@,
{
    let r = "new_".to_owned();
    r.concat(filename.as_str())
}

/// Exactly what handling each event owes: the directory transition it
/// makes and the protocol calls it returns.
pub open spec fn event_ok(
    pre: DirectoryView,
    event: NetEvent,
    post: DirectoryView,
    acts: Seq<NetAction>,
) -> bool {
    match event {
        NetEvent::Message { topic, data } => {
            &&& post == receive_message_step(pre, topic@, lossy_text_of(data@))
            &&& acts.len() == 0
        },
        NetEvent::Discovered { peer, addr } => {
            &&& post == discovered_step(pre, peer@)
            &&& acts.len() == 3
            &&& acts[0] matches NetAction::AddExplicitPeer { peer: p } && p@ == peer@
            &&& acts[1] matches NetAction::AddAddress { peer: p, addr: a } && p@ == peer@ && a@
                == addr@
            &&& acts[2] matches NetAction::Subscribe { topic } && topic@ == dm_topic(
                pre.self_peer_id->0,
                peer@,
            )
        },
        NetEvent::Expired { peer } => {
            &&& post == expired_step(pre)
            &&& acts.len() == 1
            &&& acts[0] matches NetAction::RemoveExplicitPeer { peer: p } && p@ == peer@
        },
        NetEvent::ConnectionClosed { peer } => {
            &&& post == closed_step(pre, peer@)
            &&& acts.len() == 1
            &&& acts[0] matches NetAction::RemoveExplicitPeer { peer: p } && p@ == peer@
        },
        NetEvent::RecordFound { key, value } => match text_of_cbor(value@) {
            Some(name) => {
                &&& post == merge_username_step(pre, key@, name)
                &&& acts.len() == 0
            },
            None => match list_of_cbor(value@) {
                Some(l) => {
                    &&& post == merge_rooms_step(pre, l)
                    &&& all_subscribes(acts, added_rooms(pre, l))
                },
                None => post == pre && acts.len() == 0,
            },
        },
        NetEvent::RequestReceived { peer, request, reply } => {
            &&& post == (DirectoryView {
                pending_file_requests: pre.pending_file_requests.push(
                    RequestItemView { peer_id: peer@, request_string: request@, reply },
                ),
                ..pre
            })
            &&& acts.len() == 0
        },
        NetEvent::ResponseReceived { filename, data } => {
            &&& post == pre
            &&& acts.len() == 1
            &&& acts[0] matches NetAction::SaveFile { filename: f, data: d } && f@ == "new_"@
                + filename@ && d@ == data@
        },
        NetEvent::NewListenAddr { addr } => {
            &&& post == pre
            &&& acts.len() == 1
            &&& acts[0] matches NetAction::AddAddress { peer: p, addr: a } && p@
                == pre.self_peer_id->0 && a@ == addr@
        },
        _ => post == pre && acts.len() == 0,
    }
}

/// Dispatches one protocol event: updates the directory as the event's
/// kind demands and returns the protocol calls to perform. Discovery
/// registers the peer and subscribes the derived direct-message topic; a
/// found record merges by trial decode, subscribing any new rooms; file
/// requests queue for a local accept; a file response is saved under a
/// prefixed name; write completions, failures and unrecognized events are
/// logged and dropped.
pub fn handle_event(dir: &mut Directory, event: NetEvent) -> (acts: Vec<NetAction>)
    requires
        old(dir).wf(),
        (event matches NetEvent::Discovered { .. } || event matches NetEvent::NewListenAddr {
            ..
        }) ==> old(dir)@.self_peer_id is Some,
    ensures
        final(dir).wf(),
        event_ok(old(dir)@, event, final(dir)@, acts@),
{
    let mut acts: Vec<NetAction> = Vec::new();
    match event {
        NetEvent::Message { topic, data } => {
            let text = bytes_to_text(&data);
            dir.receive_message(&topic, text);
        },
        NetEvent::Discovered { peer, addr } => {
            let dm = dir.peer_discovered(&peer);
            acts.push(NetAction::AddExplicitPeer { peer: peer.clone() });
            acts.push(NetAction::AddAddress { peer, addr });
            acts.push(NetAction::Subscribe { topic: dm });
        },
        NetEvent::Expired { peer } => {
            dir.peer_expired();
            acts.push(NetAction::RemoveExplicitPeer { peer });
        },
        NetEvent::ConnectionClosed { peer } => {
            dir.connection_closed(&peer);
            acts.push(NetAction::RemoveExplicitPeer { peer });
        },
        NetEvent::RecordFound { key, value } => {
            match dir.apply_record(&key, &value) {
                Ok(new_rooms) => {
                    let n = new_rooms.len();
                    let ghost topics = new_rooms.deep_view();
                    let mut i: usize = 0;
                    proof {
                        assert(topics.take(0) =~= Seq::<Seq<char>>::empty());
                    }
                    while i < n
                        invariant
                            i <= n,
                            n == new_rooms@.len(),
                            topics == new_rooms.deep_view(),
                            all_subscribes(acts@, topics.take(i as int)),
                        decreases n - i,
                    {
                        let room = new_rooms[i].clone();
                        let ghost pre_acts = acts@;
                        acts.push(NetAction::Subscribe { topic: room });
                        proof {
                            assert(topics.take(i + 1) =~= topics.take(i as int).push(
                                topics[i as int],
                            ));
                            assert(acts@[pre_acts.len() as int] matches NetAction::Subscribe {
                                topic,
                            } && topic@ == topics[i as int]);
                            assert(forall|j: int| 0 <= j < pre_acts.len() ==> acts@[j] == pre_acts[j]);
                        }
                        i = i + 1;
                    }
                    proof {
                        assert(topics.take(n as int) =~= topics);
                    }
                },
                Err(_) => {},
            }
        },
        NetEvent::RequestReceived { peer, request, reply } => {
            dir.add_request(
                RequestItem { peer_id: peer, request_string: request, reply },
            );
        },
        NetEvent::ResponseReceived { filename, data } => {
            let saved = saved_file_name(&filename);
            acts.push(NetAction::SaveFile { filename: saved, data });
        },
        NetEvent::NewListenAddr { addr } => {
            let me = dir.self_peer_id.as_ref().unwrap().clone();
            acts.push(NetAction::AddAddress { peer: me, addr });
        },
        NetEvent::RecordStored { key: _ } => {},
        NetEvent::LookupFailed => {},
        NetEvent::InboundFailure => {},
        NetEvent::OutboundFailure => {},
        NetEvent::Other => {},
    }
    acts
}

} // verus!
