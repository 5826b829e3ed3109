use vstd::prelude::*;

verus! {

/// Size of the fixed descriptor that starts every frame.
pub const DESCRIPTOR_LEN: usize = 16;

/// Largest header a descriptor can announce.
pub const MAX_HEADER_LEN: usize = 65535;

/// Kind of a message, carried on the wire as a little-endian `u16`.
#[derive(PartialEq, Eq, Structural, Clone, Copy, Debug)]
pub enum MessageType {
    Login,
    Logout,
    UsernameExists,
    BadUsername,
    BadLogin,
    Image,
    Utf8,
    File,
    Voice,
    /// Any wire value that names no other kind.
    Unknown,
}

/// The wire value of a kind.
pub open spec fn kind_code(k: MessageType) -> u16 {
    match k {
        MessageType::Login => 1,
        MessageType::Logout => 2,
        MessageType::UsernameExists => 3,
        MessageType::BadUsername => 4,
        MessageType::BadLogin => 5,
        MessageType::Image => 6,
        MessageType::Utf8 => 7,
        MessageType::File => 8,
        MessageType::Voice => 9,
        MessageType::Unknown => 0,
    }
}

/// The kind that a wire value names; every unlisted value is `Unknown`.
pub open spec fn kind_of_code(v: u16) -> MessageType {
    if v == 1 {
        MessageType::Login
    } else if v == 2 {
        MessageType::Logout
    } else if v == 3 {
        MessageType::UsernameExists
    } else if v == 4 {
        MessageType::BadUsername
    } else if v == 5 {
        MessageType::BadLogin
    } else if v == 6 {
        MessageType::Image
    } else if v == 7 {
        MessageType::Utf8
    } else if v == 8 {
        MessageType::File
    } else if v == 9 {
        MessageType::Voice
    } else {
        MessageType::Unknown
    }
}

/// Kinds that carry a user payload.
pub open spec fn is_payload_kind(k: MessageType) -> bool {
    k == MessageType::Utf8 || k == MessageType::File || k == MessageType::Voice || k
        == MessageType::Image
}

impl MessageType {
    pub fn code(self) -> (r: u16)
        ensures
            r == kind_code(self),
    {
        match self {
            MessageType::Login => 1,
            MessageType::Logout => 2,
            MessageType::UsernameExists => 3,
            MessageType::BadUsername => 4,
            MessageType::BadLogin => 5,
            MessageType::Image => 6,
            MessageType::Utf8 => 7,
            MessageType::File => 8,
            MessageType::Voice => 9,
            MessageType::Unknown => 0,
        }
    }

    pub fn from_code(v: u16) -> (r: Self)
        ensures
            r == kind_of_code(v),
    {
        match v {
            1 => MessageType::Login,
            2 => MessageType::Logout,
            3 => MessageType::UsernameExists,
            4 => MessageType::BadUsername,
            5 => MessageType::BadLogin,
            6 => MessageType::Image,
            7 => MessageType::Utf8,
            8 => MessageType::File,
            9 => MessageType::Voice,
            _ => MessageType::Unknown,
        }
    }

    /// Whether the kind carries a user payload (text, file, voice, image).
    pub fn carries_payload(self) -> (r: bool)
        ensures
            r == is_payload_kind(self),
    {
        match self {
            MessageType::Utf8 | MessageType::File | MessageType::Voice | MessageType::Image => true,
            _ => false,
        }
    }
}

impl From<u16> for MessageType {
    fn from(v: u16) -> (r: Self) {
        MessageType::from_code(v)
    }
}

impl vstd::std_specs::convert::FromSpecImpl<u16> for MessageType {
    open spec fn obeys_from_spec() -> bool {
        true
    }

    open spec fn from_spec(v: u16) -> MessageType {
        kind_of_code(v)
    }
}

/// Every kind survives the trip to its wire value and back.
pub proof fn lemma_kind_code_round_trip(k: MessageType)
    ensures
        kind_of_code(kind_code(k)) == k,
{
}


/// The fixed part of a frame: the kind and the lengths of the header and the
/// content that follow it.
#[derive(PartialEq, Eq, Structural, Clone, Copy, Debug)]
pub struct Descriptor {
    pub kind: MessageType,
    pub header_len: u16,
    pub content_len: u64,
}

/// Two bytes of `x`, least significant first.
pub open spec fn le_bytes_u16(x: u16) -> Seq<u8> {
    seq![x as u8, (x >> 8) as u8]
}

/// The `u16` whose little-endian bytes are `b0, b1`.
pub open spec fn le_u16(b0: u8, b1: u8) -> u16 {
    (b0 as u16) | ((b1 as u16) << 8)
}

/// Eight bytes of `x`, least significant first.
pub open spec fn le_bytes_u64(x: u64) -> Seq<u8> {
    seq![
        x as u8,
        (x >> 8) as u8,
        (x >> 16) as u8,
        (x >> 24) as u8,
        (x >> 32) as u8,
        (x >> 40) as u8,
        (x >> 48) as u8,
        (x >> 56) as u8,
    ]
}

/// The `u64` whose little-endian bytes are `b[0..8]`.
pub open spec fn le_u64(b: Seq<u8>) -> u64 {
    (b[0] as u64) | ((b[1] as u64) << 8) | ((b[2] as u64) << 16) | ((b[3] as u64) << 24) | ((
    b[4] as u64) << 32) | ((b[5] as u64) << 40) | ((b[6] as u64) << 48) | ((b[7] as u64) << 56)
}

/// The sixteen bytes of a descriptor: kind, header length, four zero bytes of
/// padding, content length.
pub open spec fn descriptor_bytes(d: Descriptor) -> Seq<u8> {
    le_bytes_u16(kind_code(d.kind)) + le_bytes_u16(d.header_len) + seq![0u8, 0u8, 0u8, 0u8]
        + le_bytes_u64(d.content_len)
}

/// The descriptor that sixteen bytes hold; the padding is ignored.
pub open spec fn parse_descriptor(b: Seq<u8>) -> Descriptor {
    Descriptor {
        kind: kind_of_code(le_u16(b[0], b[1])),
        header_len: le_u16(b[2], b[3]),
        content_len: le_u64(b.subrange(8, 16)),
    }
}

/// A descriptor of the given kind with no header and no content.
pub open spec fn bare_descriptor(k: MessageType) -> Descriptor {
    Descriptor { kind: k, header_len: 0, content_len: 0 }
}

proof fn lemma_u16_round_trip(x: u16)
    ensures
        le_u16(x as u8, (x >> 8) as u8) == x,
{
    assert((((x as u8) as u16) | ((((x >> 8) as u8) as u16) << 8)) == x) by (bit_vector);
}

proof fn lemma_u64_round_trip(x: u64)
    ensures
        le_u64(le_bytes_u64(x)) == x,
{
    let b = le_bytes_u64(x);
    assert(b[0] == x as u8 && b[1] == (x >> 8) as u8 && b[2] == (x >> 16) as u8 && b[3] == (x
        >> 24) as u8 && b[4] == (x >> 32) as u8 && b[5] == (x >> 40) as u8 && b[6] == (x >> 48) as u8
        && b[7] == (x >> 56) as u8);
    assert((((x as u8) as u64) | ((((x >> 8) as u8) as u64) << 8) | ((((x >> 16) as u8) as u64)
        << 16) | ((((x >> 24) as u8) as u64) << 24) | ((((x >> 32) as u8) as u64) << 32) | ((((x
        >> 40) as u8) as u64) << 40) | ((((x >> 48) as u8) as u64) << 48) | ((((x >> 56) as u8)
        as u64) << 56)) == x) by (bit_vector);
}

/// Decoding the bytes of a descriptor gives the descriptor back.
pub proof fn lemma_descriptor_round_trip(d: Descriptor)
    ensures
        descriptor_bytes(d).len() == DESCRIPTOR_LEN,
        parse_descriptor(descriptor_bytes(d)) == d,
{
    let b = descriptor_bytes(d);
    let k = kind_code(d.kind);
    lemma_u16_round_trip(k);
    lemma_u16_round_trip(d.header_len);
    lemma_u64_round_trip(d.content_len);
    assert(b.subrange(8, 16) =~= le_bytes_u64(d.content_len));
    lemma_kind_code_round_trip(d.kind);
}

impl From<MessageType> for Descriptor {
    fn from(k: MessageType) -> (r: Self) {
        Descriptor { kind: k, header_len: 0, content_len: 0 }
    }
}

impl vstd::std_specs::convert::FromSpecImpl<MessageType> for Descriptor {
    open spec fn obeys_from_spec() -> bool {
        true
    }

    open spec fn from_spec(k: MessageType) -> Descriptor {
        bare_descriptor(k)
    }
}

impl Descriptor {
    /// A descriptor of kind `k` with empty header and content.
    pub fn bare(k: MessageType) -> (r: Self)
        ensures
            r == bare_descriptor(k),
    {
        Descriptor { kind: k, header_len: 0, content_len: 0 }
    }

    pub fn with_content_len(self, content_len: u64) -> (r: Self)
        ensures
            r == (Descriptor { content_len, ..self }),
    {
        Descriptor { content_len, ..self }
    }

    pub fn with_header_len(self, header_len: u16) -> (r: Self)
        ensures
            r == (Descriptor { header_len, ..self }),
    {
        Descriptor { header_len, ..self }
    }

    /// Reads a descriptor from its sixteen wire bytes. Unknown kind values
    /// become `Unknown`; the padding is not looked at.
    pub fn from_bytes(bytes: &[u8]) -> (r: Self)
        requires
            bytes@.len() == DESCRIPTOR_LEN,
        ensures
            r == parse_descriptor(bytes@),
    {
        let kind = MessageType::from_code((bytes[0] as u16) | ((bytes[1] as u16) << 8));
        let header_len = (bytes[2] as u16) | ((bytes[3] as u16) << 8);
        let content_len = (bytes[8] as u64) | ((bytes[9] as u64) << 8) | ((bytes[10] as u64) << 16)
            | ((bytes[11] as u64) << 24) | ((bytes[12] as u64) << 32) | ((bytes[13] as u64) << 40)
            | ((bytes[14] as u64) << 48) | ((bytes[15] as u64) << 56);
        proof {
            let t = bytes@.subrange(8, 16);
            assert(t[0] == bytes@[8] && t[1] == bytes@[9] && t[2] == bytes@[10] && t[3]
                == bytes@[11] && t[4] == bytes@[12] && t[5] == bytes@[13] && t[6] == bytes@[14]
                && t[7] == bytes@[15]);
        }
        Descriptor { kind, header_len, content_len }
    }

    /// The sixteen wire bytes of the descriptor, with zero padding.
    pub fn as_bytes(&self) -> (r: Vec<u8>)
        ensures
            r@ == descriptor_bytes(*self),
    {
        let k = self.kind.code();
        let h = self.header_len;
        let c = self.content_len;
        let r = vec![
            k as u8,
            (k >> 8) as u8,
            h as u8,
            (h >> 8) as u8,
            0u8,
            0u8,
            0u8,
            0u8,
            c as u8,
            (c >> 8) as u8,
            (c >> 16) as u8,
            (c >> 24) as u8,
            (c >> 32) as u8,
            (c >> 40) as u8,
            (c >> 48) as u8,
            (c >> 56) as u8,
        ];
        assert(r@ =~= descriptor_bytes(*self));
        r
    }
}


/// A whole frame: descriptor, header, content.
pub open spec fn frame_bytes(d: Descriptor, header: Seq<u8>, content: Seq<u8>) -> Seq<u8> {
    descriptor_bytes(d) + header + content
}

/// The lengths that a descriptor announces are the lengths of the spans.
pub open spec fn frame_consistent(d: Descriptor, header: Seq<u8>, content: Seq<u8>) -> bool {
    header.len() == d.header_len as int && content.len() == d.content_len as int
}

/// What a buffer holding exactly one frame decodes to.
pub open spec fn parse_frame(b: Seq<u8>) -> Option<(Descriptor, Seq<u8>, Seq<u8>)> {
    if b.len() < DESCRIPTOR_LEN {
        None
    } else {
        let d = parse_descriptor(b.subrange(0, 16));
        let h = d.header_len as int;
        let c = d.content_len as int;
        if b.len() != 16 + h + c {
            None
        } else {
            Some((d, b.subrange(16, 16 + h), b.subrange(16 + h, b.len() as int)))
        }
    }
}

/// Appends `src` to `dst`.
pub fn append_bytes(dst: &mut Vec<u8>, src: &[u8])
    ensures
        final(dst)@ == old(dst)@ + src@,
{
    let n = src.len();
    let mut i: usize = 0;
    while i < n
        invariant
            n == src@.len(),
            i <= n,
            dst@ == old(dst)@ + src@.subrange(0, i as int),
        decreases n - i,
    {
        dst.push(src[i]);
        i = i + 1;
        assert(src@.subrange(0, i as int) =~= src@.subrange(0, i - 1) + seq![src@[i - 1]]);
    }
    assert(src@.subrange(0, n as int) =~= src@);
}

/// Copies `src[start..end]` into a new vector.
pub fn copy_range(src: &[u8], start: usize, end: usize) -> (r: Vec<u8>)
    requires
        start <= end <= src@.len(),
    ensures
        r@ == src@.subrange(start as int, end as int),
{
    let mut r: Vec<u8> = Vec::new();
    let mut i: usize = start;
    while i < end
        invariant
            start <= i <= end <= src@.len(),
            r@ == src@.subrange(start as int, i as int),
        decreases end - i,
    {
        r.push(src[i]);
        i = i + 1;
        assert(src@.subrange(start as int, i as int) =~= src@.subrange(start as int, i - 1) + seq![
            src@[i - 1],
        ]);
    }
    r
}

/// The bytes of one frame: `desc`, then `header`, then `content`, whose
/// lengths the descriptor announces.
pub fn encode_frame(desc: &Descriptor, header: &[u8], content: &[u8]) -> (r: Vec<u8>)
    requires
        frame_consistent(*desc, header@, content@),
    ensures
        r@ == frame_bytes(*desc, header@, content@),
        r@.len() == DESCRIPTOR_LEN + desc.header_len + desc.content_len,
{
    let mut r = desc.as_bytes();
    append_bytes(&mut r, header);
    append_bytes(&mut r, content);
    proof {
        lemma_descriptor_round_trip(*desc);
    }
    r
}

/// The part of a frame that precedes its content: `desc`, then `header`.
/// The content is streamed after it.
pub fn encode_head(desc: &Descriptor, header: &[u8]) -> (r: Vec<u8>)
    requires
        header@.len() == desc.header_len,
    ensures
        r@ == descriptor_bytes(*desc) + header@,
        r@.len() == DESCRIPTOR_LEN + desc.header_len,
{
    let mut r = desc.as_bytes();
    append_bytes(&mut r, header);
    proof {
        lemma_descriptor_round_trip(*desc);
    }
    r
}

/// Splits a buffer that holds exactly one frame into its descriptor, header
/// and content; `None` when the buffer is shorter than a descriptor or its
/// length is not the one that the descriptor announces.
pub fn decode_frame(bytes: &[u8]) -> (r: Option<(Descriptor, Vec<u8>, Vec<u8>)>)
    ensures
        match (r, parse_frame(bytes@)) {
            (None, None) => true,
            (Some((d, h, c)), Some((pd, ph, pc))) => d == pd && h@ == ph && c@ == pc,
            _ => false,
        },
{
    if bytes.len() < DESCRIPTOR_LEN {
        return None;
    }
    let head = copy_range(bytes, 0, DESCRIPTOR_LEN);
    let d = Descriptor::from_bytes(head.as_slice());
    let h = d.header_len as usize;
    let rest = bytes.len() - DESCRIPTOR_LEN;
    if rest < h || (rest - h) as u64 != d.content_len {
        return None;
    }
    let header = copy_range(bytes, DESCRIPTOR_LEN, DESCRIPTOR_LEN + h);
    let content = copy_range(bytes, DESCRIPTOR_LEN + h, bytes.len());
    Some((d, header, content))
}

/// Every frame is its descriptor's sixteen bytes followed by exactly
/// `header_len` header bytes and `content_len` content bytes.
pub proof fn lemma_frame_len(d: Descriptor, header: Seq<u8>, content: Seq<u8>)
    requires
        frame_consistent(d, header, content),
    ensures
        frame_bytes(d, header, content).len() == DESCRIPTOR_LEN + d.header_len + d.content_len,
{
    lemma_descriptor_round_trip(d);
}

/// Decoding an encoded frame gives back its descriptor, and its header and
/// content byte for byte.
pub proof fn lemma_frame_round_trip(d: Descriptor, header: Seq<u8>, content: Seq<u8>)
    requires
        frame_consistent(d, header, content),
    ensures
        parse_frame(frame_bytes(d, header, content)) == Some((d, header, content)),
{
    let b = frame_bytes(d, header, content);
    lemma_descriptor_round_trip(d);
    assert(b.subrange(0, 16) =~= descriptor_bytes(d));
    let h = d.header_len as int;
    assert(b.subrange(16, 16 + h) =~= header);
    assert(b.subrange(16 + h, b.len() as int) =~= content);
}

} // verus!
