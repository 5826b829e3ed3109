use vstd::prelude::*;
use vstd::string::StringSliceAdditionalSpecFns;

use crate::header::Timestamp;
use crate::wire::{
    descriptor_bytes, encode_frame, encode_head, frame_bytes, lemma_frame_round_trip, parse_frame,
    Descriptor, MessageType, MAX_HEADER_LEN,
};

verus! {

/// A message as the client hands it on: its descriptor, the header's
/// fields, and the content.
#[derive(Clone, Debug)]
pub struct ServerMessage {
    pub desc: Descriptor,
    pub timestamp: Timestamp,
    pub from: String,
    pub filename: Option<String>,
    pub content: Vec<u8>,
}

impl ServerMessage {
    /// The name under which a received file is saved: the file name of a
    /// `File` message; nothing for other kinds or without a name.
    pub fn save_name(&self) -> (r: Option<String>)
        ensures
            r == if self.desc.kind == MessageType::File {
                self.filename
            } else {
                None
            },
    {
        if self.desc.kind == MessageType::File {
            self.filename.clone()
        } else {
            None
        }
    }
}

/// The login frame for `username`: a `Login` descriptor announcing the
/// name's bytes as header, then those bytes; `None` when the name is too
/// long for a descriptor to announce.
pub fn login_frame(username: &str) -> (r: Option<Vec<u8>>)
    ensures
        r is Some <==> username.spec_bytes().len() <= MAX_HEADER_LEN,
        match r {
            Some(f) => f@ == frame_bytes(
                Descriptor {
                    kind: MessageType::Login,
                    header_len: username.spec_bytes().len() as u16,
                    content_len: 0,
                },
                username.spec_bytes(),
                Seq::empty(),
            ),
            None => true,
        },
{
    let name = username.as_bytes();
    if name.len() > MAX_HEADER_LEN {
        return None;
    }
    let desc = Descriptor::bare(MessageType::Login).with_header_len(name.len() as u16);
    let empty: Vec<u8> = Vec::new();
    Some(encode_frame(&desc, name, empty.as_slice()))
}

/// Whether the server's answer to a login accepts it.
pub fn login_accepted(reply: &Descriptor) -> (r: bool)
    ensures
        r == (reply.kind == MessageType::Login),
{
    reply.kind == MessageType::Login
}

/// The frame of a text message: a `Utf8` descriptor with no header, then
/// the text's bytes as content.
pub fn text_frame(text: &str) -> (r: Vec<u8>)
    ensures
        r@ == frame_bytes(
            Descriptor {
                kind: MessageType::Utf8,
                header_len: 0,
                content_len: text.spec_bytes().len() as u64,
            },
            Seq::empty(),
            text.spec_bytes(),
        ),
{
    let bytes = text.as_bytes();
    let desc = Descriptor::bare(MessageType::Utf8).with_content_len(bytes.len() as u64);
    let empty: Vec<u8> = Vec::new();
    encode_frame(&desc, empty.as_slice(), bytes)
}

/// What precedes the contents of a file on the wire: a `File` descriptor
/// announcing the file name as header and `file_len` bytes of content, then
/// the name; `None` when the name is too long for a descriptor to announce.
pub fn file_frame_head(filename: &str, file_len: u64) -> (r: Option<Vec<u8>>)
    ensures
        r is Some <==> filename.spec_bytes().len() <= MAX_HEADER_LEN,
        match r {
            Some(f) => f@ == descriptor_bytes(
                Descriptor {
                    kind: MessageType::File,
                    header_len: filename.spec_bytes().len() as u16,
                    content_len: file_len,
                },
            ) + filename.spec_bytes(),
            None => true,
        },
{
    let name = filename.as_bytes();
    if name.len() > MAX_HEADER_LEN {
        return None;
    }
    let desc = Descriptor::bare(MessageType::File).with_header_len(name.len() as u16).with_content_len(
        file_len,
    );
    Some(encode_head(&desc, name))
}


/// A file keeps its length and its bytes on the way through the server: the
/// frame a client sends for it decodes to the file's bytes with a content
/// length equal to the file's length, and so does the frame the broker sends
/// on, whose descriptor differs only in the length of the header it carries.
pub proof fn lemma_file_relay(name: Seq<u8>, content: Seq<u8>, header: Seq<u8>)
    requires
        name.len() <= MAX_HEADER_LEN,
        header.len() <= MAX_HEADER_LEN,
        content.len() <= u64::MAX,
    ensures
        ({
            let sent = Descriptor {
                kind: MessageType::File,
                header_len: name.len() as u16,
                content_len: content.len() as u64,
            };
            let relayed = Descriptor { header_len: header.len() as u16, ..sent };
            &&& parse_frame(descriptor_bytes(sent) + name + content) == Some((sent, name, content))
            &&& parse_frame(frame_bytes(relayed, header, content)) == Some(
                (relayed, header, content),
            )
            &&& relayed.content_len == content.len()
        }),
{
    let sent = Descriptor {
        kind: MessageType::File,
        header_len: name.len() as u16,
        content_len: content.len() as u64,
    };
    let relayed = Descriptor { header_len: header.len() as u16, ..sent };
    lemma_frame_round_trip(sent, name, content);
    lemma_frame_round_trip(relayed, header, content);
}

} // verus!
