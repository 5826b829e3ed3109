use vstd::prelude::*;
use vstd::utf8::{decode_utf8, valid_utf8};

use crate::header::{header_bytes, ServerHeader, Timestamp};
use crate::wire::{bare_descriptor, Descriptor, MessageType, MAX_HEADER_LEN};

verus! {

/// Content up to this many bytes is held in memory; larger content is
/// spilled to a file. Also the size of the buffers that stream content.
pub const BUF_SIZE: usize = 16384;

/// Length of a spill id: a hyphenated UUID.
pub const SPILL_ID_LEN: usize = 36;

/// Relies on uuid's `Uuid::new_v4`, a random version-4 UUID, and on its
/// `Display`, the 36-character hyphenated form.
#[verifier::external_body]
fn fresh_spill_id() -> (r: String)
    ensures
        r@.len() == SPILL_ID_LEN,
{
    uuid::Uuid::new_v4().to_string()
}

/// Relies on `String::from_utf8`: the text of the bytes when they are valid
/// UTF-8, an error otherwise.
#[verifier::external_body]
fn utf8_text(bytes: Vec<u8>) -> (r: Option<String>)
    ensures
        match r {
            Some(s) => valid_utf8(bytes@) && s@ == decode_utf8(bytes@),
            None => !valid_utf8(bytes@),
        },
{
    match String::from_utf8(bytes) {
        Ok(s) => Some(s),
        Err(_) => None,
    }
}

/// Where the content of an incoming message goes.
pub enum ContentPlan {
    /// Read whole into memory.
    InMemory,
    /// Streamed into a fresh spill file named by this id.
    Spill(String),
}

/// Small content stays in memory; content over `BUF_SIZE` bytes goes to a
/// spill file with a fresh id.
pub fn plan_content(content_len: u64) -> (r: ContentPlan)
    ensures
        r is InMemory <==> content_len <= BUF_SIZE,
        match r {
            ContentPlan::Spill(id) => id@.len() == SPILL_ID_LEN,
            ContentPlan::InMemory => true,
        },
{
    if content_len <= BUF_SIZE as u64 {
        ContentPlan::InMemory
    } else {
        ContentPlan::Spill(fresh_spill_id())
    }
}

/// The text of `bytes`, or the empty string when they are not UTF-8.
pub fn decode_filename(bytes: Vec<u8>) -> (r: String)
    ensures
        r@ == if valid_utf8(bytes@) {
            decode_utf8(bytes@)
        } else {
            Seq::<char>::empty()
        },
{
    match utf8_text(bytes) {
        Some(s) => s,
        None => String::new(),
    }
}

/// One round of the login handshake: a descriptor that is not a login is
/// answered with `BadLogin`; a login whose name is not UTF-8 with
/// `BadUsername`; otherwise the name goes to the broker.
pub fn login_request(desc: &Descriptor, name: Vec<u8>) -> (r: Result<String, Descriptor>)
    ensures
        desc.kind != MessageType::Login ==> r == Err::<String, Descriptor>(
            bare_descriptor(MessageType::BadLogin),
        ),
        desc.kind == MessageType::Login ==> match r {
            Ok(u) => valid_utf8(name@) && u@ == decode_utf8(name@),
            Err(d) => !valid_utf8(name@) && d == bare_descriptor(MessageType::BadUsername),
        },
{
    if desc.kind != MessageType::Login {
        return Err(Descriptor::bare(MessageType::BadLogin));
    }
    match utf8_text(name) {
        Some(u) => Ok(u),
        None => Err(Descriptor::bare(MessageType::BadUsername)),
    }
}

/// The descriptor that answers a login with the broker's reply, and whether
/// the session then starts.
pub fn login_reply(reply: MessageType) -> (r: (Descriptor, bool))
    ensures
        r.0 == bare_descriptor(reply),
        r.1 == (reply == MessageType::Login),
{
    (Descriptor::bare(reply), reply == MessageType::Login)
}

/// How many header bytes of an incoming payload frame are read as the file
/// name: the header of a `File` frame, nothing for the other kinds.
pub fn filename_len(desc: &Descriptor) -> (r: usize)
    ensures
        r == if desc.kind == MessageType::File {
            desc.header_len as usize
        } else {
            0
        },
{
    if desc.kind == MessageType::File {
        desc.header_len as usize
    } else {
        0
    }
}

/// The descriptor and header bytes that go before a broadcast content:
/// `desc` with its header length set to that of the serialized `header`;
/// `None` when the header is too long for a descriptor to announce.
pub fn broadcast_head(desc: Descriptor, header: &ServerHeader) -> (r: Option<(Descriptor, Vec<u8>)>)
    requires
        header.timestamp.wf(),
    ensures
        r is Some <==> header_bytes(*header).len() <= MAX_HEADER_LEN,
        match r {
            Some((d, h)) => h@ == header_bytes(*header) && d == (Descriptor {
                header_len: h@.len() as u16,
                ..desc
            }),
            None => true,
        },
{
    let h = header.to_json();
    if h.len() > MAX_HEADER_LEN {
        return None;
    }
    Some((desc.with_header_len(h.len() as u16), h))
}

/// The broadcast head of a message that `username` sent at `timestamp`,
/// with the file name it gave for a file.
pub fn message_head(
    desc: Descriptor,
    username: String,
    filename: Option<String>,
    timestamp: Timestamp,
) -> (r: Option<(Descriptor, Vec<u8>)>)
    requires
        timestamp.wf(),
    ensures
        ({
            let h = ServerHeader { timestamp, from: username, filename };
            &&& r is Some <==> header_bytes(h).len() <= MAX_HEADER_LEN
            &&& match r {
                Some((d, hb)) => hb@ == header_bytes(h) && d == (Descriptor {
                    header_len: hb@.len() as u16,
                    ..desc
                }),
                None => true,
            }
        }),
{
    let h = ServerHeader { timestamp, from: username, filename };
    broadcast_head(desc, &h)
}

/// The broadcast head of the broker's own notice of kind `kind` (`Login` or
/// `Logout`) about `username`: a header naming the user, no content.
pub fn notice_head(kind: MessageType, username: String, timestamp: Timestamp) -> (r: Option<
    (Descriptor, Vec<u8>),
>)
    requires
        timestamp.wf(),
    ensures
        ({
            let h = ServerHeader { timestamp, from: username, filename: None };
            &&& r is Some <==> header_bytes(h).len() <= MAX_HEADER_LEN
            &&& match r {
                Some((d, hb)) => hb@ == header_bytes(h) && d == (Descriptor {
                    kind,
                    header_len: hb@.len() as u16,
                    content_len: 0,
                }),
                None => true,
            }
        }),
{
    let h = ServerHeader { timestamp, from: username, filename: None };
    broadcast_head(Descriptor::bare(kind), &h)
}

} // verus!
