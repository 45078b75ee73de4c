//! Topic names: room-versus-DM classification and the derived
//! direct-message topic shared by a pair of peers.

use vstd::prelude::*;
use vstd::string::StringSliceAdditionalSpecFns;
use vstd::string::StrSliceExecFns;
use vstd::string::StringExecFns;
use vstd::utf8::char_u32_cast;

verus! {

/// Longest byte length a room name (and so a public topic name) may have.
pub const MAX_ROOM_NAME_BYTES: usize = 64;

/// How an inbound topic is treated: short names are rooms, long names are
/// direct-message channels (two peer identifiers joined by an underscore
/// always exceed the room-name limit in practice).
#[derive(Clone, Copy, PartialEq, Eq, Structural, Debug)]
pub enum Classification {
    Public,
    Private,
}

/// Classifies a topic by the byte length of its name: at most
/// `MAX_ROOM_NAME_BYTES` bytes means a public room, anything longer a
/// direct-message channel.
pub fn classify(topic: &str) -> (c: Classification)
    ensures
        c == Classification::Public <==> topic.spec_bytes().len() <= MAX_ROOM_NAME_BYTES,
{
    if topic.as_bytes().len() <= MAX_ROOM_NAME_BYTES {
        Classification::Public
    } else {
        Classification::Private
    }
}

/// A room name may be written to the shared room list only when it is
/// between one and `MAX_ROOM_NAME_BYTES` bytes long.
pub fn valid_room_name(name: &str) -> (ok: bool)
    ensures
        ok <==> 1 <= name.spec_bytes().len() <= MAX_ROOM_NAME_BYTES,
{
    let n = name.as_bytes().len();
    1 <= n && n <= MAX_ROOM_NAME_BYTES
}

/// Lexicographic order on character sequences, by code point.
pub open spec fn lex_le(a: Seq<char>, b: Seq<char>) -> bool
    decreases a.len(),
{
    if a.len() == 0 {
        true
    } else if b.len() == 0 {
        false
    } else if a[0] == b[0] {
        lex_le(a.skip(1), b.skip(1))
    } else {
        (a[0] as u32) < (b[0] as u32)
    }
}

/// The order is total: one of the two directions always holds.
pub proof fn lemma_lex_le_total(a: Seq<char>, b: Seq<char>)
    ensures
        lex_le(a, b) || lex_le(b, a),
    decreases a.len(),
{
    if a.len() == 0 || b.len() == 0 {
    } else if a[0] == b[0] {
        lemma_lex_le_total(a.skip(1), b.skip(1));
    } else {
        char_u32_cast(a[0], a[0] as u32);
        char_u32_cast(b[0], b[0] as u32);
    }
}

/// The order is antisymmetric: sequences below each other are equal.
pub proof fn lemma_lex_le_antisymmetric(a: Seq<char>, b: Seq<char>)
    requires
        lex_le(a, b),
        lex_le(b, a),
    ensures
        a == b,
    decreases a.len(),
{
    if a.len() == 0 {
        assert(b.len() == 0);
        assert(a =~= b);
    } else {
        assert(b.len() > 0);
        assert(a[0] == b[0]);
        lemma_lex_le_antisymmetric(a.skip(1), b.skip(1));
        assert(a =~= seq![a[0]] + a.skip(1));
        assert(b =~= seq![b[0]] + b.skip(1));
    }
}

/// Decides `lex_le` on string slices.
fn str_le(a: &str, b: &str) -> (r: bool)
    ensures
        r == lex_le(a@, b@),
{
    let a_len = a.unicode_len();
    let b_len = b.unicode_len();
    let mut i: usize = 0;
    proof {
        assert(a@.skip(0) =~= a@);
        assert(b@.skip(0) =~= b@);
    }
    loop
        invariant
            i <= a_len,
            i <= b_len,
            a_len == a@.len(),
            b_len == b@.len(),
            lex_le(a@, b@) == lex_le(a@.skip(i as int), b@.skip(i as int)),
        decreases a_len - i,
    {
        if i == a_len {
            return true;
        }
        if i == b_len {
            return false;
        }
        let ca = a.get_char(i);
        let cb = b.get_char(i);
        if ca as u32 != cb as u32 {
            return (ca as u32) < (cb as u32);
        }
        proof {
            char_u32_cast(ca, ca as u32);
            char_u32_cast(cb, cb as u32);
            assert(a@.skip(i as int)[0] == b@.skip(i as int)[0]);
            assert(a@.skip(i as int).skip(1) =~= a@.skip(i + 1));
            assert(b@.skip(i as int).skip(1) =~= b@.skip(i + 1));
        }
        i = i + 1;
    }
}

/// The direct-message topic of two peers: the two identifiers in
/// lexicographic order, joined by an underscore. Both ends of a channel
/// compute the same name without talking to each other.
pub open spec fn dm_topic(a: Seq<char>, b: Seq<char>) -> Seq<char> {
    if lex_le(a, b) {
        a + seq!['_'] + b
    } else {
        b + seq!['_'] + a
    }
}

/// Builds the direct-message topic name for the two peer identifiers.
pub fn derive_dm_topic(a: &str, b: &str) -> (t: String)
    ensures
        t@ == dm_topic(a@, b@),
{
    proof {
        reveal_strlit("_");
        assert("_"@ =~= seq!['_']);
    }
    if str_le(a, b) {
        let mut t = a.to_owned();
        t.append("_");
        t.append(b);
        assert(t@ =~= dm_topic(a@, b@));
        t
    } else {
        let mut t = b.to_owned();
        t.append("_");
        t.append(a);
        assert(t@ =~= dm_topic(a@, b@));
        t
    }
}

/// The derived topic does not depend on which side derives it:
/// `dm_topic(a, b)` equals `dm_topic(b, a)`.
pub proof fn lemma_dm_topic_commutative(a: Seq<char>, b: Seq<char>)
    ensures
        dm_topic(a, b) == dm_topic(b, a),
{
    lemma_lex_le_total(a, b);
    if lex_le(a, b) && lex_le(b, a) {
        lemma_lex_le_antisymmetric(a, b);
    }
}

} // verus!
