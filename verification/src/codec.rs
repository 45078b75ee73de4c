//! Wire codec for directory records and message payloads.
//!
//! A directory record is a CBOR value of one of two untagged shapes: a
//! username (a text string) keyed by a peer identifier, or a room list (an
//! array of text strings) kept under one well-known key. The shape is not
//! tagged on the wire, so a reader tries the username decode first and the
//! room-list decode second. Message payloads are raw UTF-8 bytes.
//!
//! The CBOR encoders and decoders are outside calls; their results are
//! named by uninterpreted functions, and everything layered on them is
//! verified against those names.

use vstd::prelude::*;

verus! {

/// The CBOR encoding of a text string, as `serde_cbor` writes it.
pub uninterp spec fn cbor_of_text(s: Seq<char>) -> Seq<u8>;

/// What `serde_cbor` reads out of `b` when asked for a text string:
/// the string when `b` is CBOR text, nothing otherwise.
pub uninterp spec fn text_of_cbor(b: Seq<u8>) -> Option<Seq<char>>;

/// The CBOR encoding of a list of text strings, as `serde_cbor` writes it.
pub uninterp spec fn cbor_of_list(l: Seq<Seq<char>>) -> Seq<u8>;

/// What `serde_cbor` reads out of `b` when asked for a list of text
/// strings: the list when `b` is a CBOR array of text, nothing otherwise.
pub uninterp spec fn list_of_cbor(b: Seq<u8>) -> Option<Seq<Seq<char>>>;

/// The characters `String::from_utf8_lossy` makes of arbitrary bytes.
pub uninterp spec fn lossy_text_of(b: Seq<u8>) -> Seq<char>;

/// Relies on `serde_cbor::to_vec::<String>`: a deterministic encoding that
/// `serde_cbor::from_slice::<String>` reads back unchanged, and that is a
/// CBOR text string, not an array, so the list decode rejects it. Encoding
/// a string never fails: the serializer only writes into a vector.
#[verifier::external_body]
pub(crate) fn encode_text(s: &String) -> (r: Vec<u8>)
    ensures
        r@ == cbor_of_text(s@),
        text_of_cbor(r@) == Some(s@),
        list_of_cbor(r@) is None,
{
    serde_cbor::to_vec(s).unwrap()
}

/// Relies on `serde_cbor::from_slice::<String>`: a deterministic decode
/// that succeeds exactly on the bytes this crate calls CBOR text.
#[verifier::external_body]
pub(crate) fn decode_text(b: &Vec<u8>) -> (r: Option<String>)
    ensures
        match r {
            Some(s) => text_of_cbor(b@) == Some(s@),
            None => text_of_cbor(b@) is None,
        },
{
    serde_cbor::from_slice::<String>(b.as_slice()).ok()
}

/// Relies on `serde_cbor::to_vec::<Vec<String>>`: a deterministic encoding
/// that `serde_cbor::from_slice::<Vec<String>>` reads back unchanged, and
/// that is a CBOR array, not a text string, so the username decode rejects
/// it. Encoding a list of strings never fails.
#[verifier::external_body]
pub(crate) fn encode_list(l: &Vec<String>) -> (r: Vec<u8>)
    ensures
        r@ == cbor_of_list(l.deep_view()),
        list_of_cbor(r@) == Some(l.deep_view()),
        text_of_cbor(r@) is None,
{
    serde_cbor::to_vec(l).unwrap()
}

/// Relies on `serde_cbor::from_slice::<Vec<String>>`: a deterministic
/// decode that succeeds exactly on the bytes this crate calls a CBOR list.
#[verifier::external_body]
pub(crate) fn decode_list(b: &Vec<u8>) -> (r: Option<Vec<String>>)
    ensures
        match r {
            Some(l) => list_of_cbor(b@) == Some(l.deep_view()),
            None => list_of_cbor(b@) is None,
        },
{
    serde_cbor::from_slice::<Vec<String>>(b.as_slice()).ok()
}

/// Relies on `String::from_utf8_lossy`: a deterministic function of the
/// bytes that leaves valid UTF-8 unchanged.
#[verifier::external_body]
pub(crate) fn bytes_to_text(b: &Vec<u8>) -> (r: String)
    ensures
        r@ == lossy_text_of(b@),
        vstd::utf8::valid_utf8(b@) ==> r@ == vstd::utf8::decode_utf8(b@),
{
    String::from_utf8_lossy(b.as_slice()).into_owned()
}

/// A record value that decodes as neither a username nor a room list.
/// Such a record is logged and ignored; it never mutates the directory.
#[derive(Clone, Copy, PartialEq, Eq, Structural, Debug)]
pub struct SerializationError;

/// A decoded directory record: one of the two logical shapes a stored
/// value may have.
pub enum DirectoryRecord {
    Username(String),
    RoomList(Vec<String>),
}

/// Decodes a record value by trial: first as a username, then as a room
/// list; bytes of neither shape are a `SerializationError`.
pub fn decode_record(value: &Vec<u8>) -> (r: Result<DirectoryRecord, SerializationError>)
    ensures
        match r {
            Ok(DirectoryRecord::Username(s)) => text_of_cbor(value@) == Some(s@),
            Ok(DirectoryRecord::RoomList(l)) => text_of_cbor(value@) is None && list_of_cbor(
                value@,
            ) == Some(l.deep_view()),
            Err(_) => text_of_cbor(value@) is None && list_of_cbor(value@) is None,
        },
{
    match decode_text(value) {
        Some(s) => Ok(DirectoryRecord::Username(s)),
        None => match decode_list(value) {
            Some(l) => Ok(DirectoryRecord::RoomList(l)),
            None => Err(SerializationError),
        },
    }
}

} // verus!
