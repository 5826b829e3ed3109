use vstd::prelude::*;
use vstd::string::StringExecFns;
use vstd::utf8::encode_utf8;

use crate::wire::append_bytes;

verus! {

/// Earliest instant a header can carry: 0001-01-01T00:00:00Z.
pub const MIN_SECS: i64 = -62135596800;

/// Latest whole second a header can carry: 9999-12-31T23:59:59Z.
pub const MAX_SECS: i64 = 253402300799;

/// Nanoseconds in a second.
pub const NANOS_PER_SEC: u32 = 1000000000;

/// The RFC 3339 text of an instant, given as seconds and nanoseconds since
/// the Unix epoch, in UTC with a `Z` suffix.
pub uninterp spec fn rfc3339_of(secs: i64, nanos: u32) -> Seq<char>;

/// The JSON string literal, quotes and escapes included, that holds `s`.
pub uninterp spec fn json_string_of(s: Seq<char>) -> Seq<char>;

/// Relies on chrono's `DateTime::<Utc>::from_timestamp`, which accepts every
/// instant of the four-digit years, and on `to_rfc3339_opts` with automatic
/// fractional digits and `Z`, which is how chrono serializes an instant.
#[verifier::external_body]
fn format_rfc3339(secs: i64, nanos: u32) -> (r: String)
    requires
        MIN_SECS <= secs <= MAX_SECS,
        nanos < NANOS_PER_SEC,
    ensures
        r@ == rfc3339_of(secs, nanos),
{
    match chrono::DateTime::<chrono::Utc>::from_timestamp(secs, nanos) {
        Some(t) => t.to_rfc3339_opts(chrono::SecondsFormat::AutoSi, true),
        None => String::new(),
    }
}

/// Relies on `serde_json::to_string` on a `str`: the quoted, escaped JSON
/// string; serializing a `str` into memory does not fail.
#[verifier::external_body]
fn json_string(s: &str) -> (r: String)
    ensures
        r@ == json_string_of(s@),
{
    match serde_json::to_string(s) {
        Ok(t) => t,
        Err(_) => String::new(),
    }
}

/// An instant in UTC: whole seconds since the Unix epoch and the nanoseconds
/// past that second.
#[derive(PartialEq, Eq, Structural, Clone, Copy, Debug)]
pub struct Timestamp {
    pub secs: i64,
    pub nanos: u32,
}

impl Timestamp {
    /// Within the four-digit years, with a sub-second part under one second.
    pub open spec fn wf(&self) -> bool {
        MIN_SECS <= self.secs <= MAX_SECS && self.nanos < NANOS_PER_SEC
    }

    /// The instant `secs` seconds and `nanos` nanoseconds after the epoch,
    /// if a header can carry it.
    pub fn new(secs: i64, nanos: u32) -> (r: Option<Timestamp>)
        ensures
            r is Some <==> (Timestamp { secs, nanos }).wf(),
            r is Some ==> r == Some(Timestamp { secs, nanos }),
    {
        if MIN_SECS <= secs && secs <= MAX_SECS && nanos < NANOS_PER_SEC {
            Some(Timestamp { secs, nanos })
        } else {
            None
        }
    }

    /// The RFC 3339 text of the instant.
    pub fn to_rfc3339(&self) -> (r: String)
        requires
            self.wf(),
        ensures
            r@ == rfc3339_of(self.secs, self.nanos),
    {
        format_rfc3339(self.secs, self.nanos)
    }
}

/// The metadata that the broker puts before every content it sends: when,
/// from whom, and for a file its name.
#[derive(Clone, Debug)]
pub struct ServerHeader {
    pub timestamp: Timestamp,
    pub from: String,
    pub filename: Option<String>,
}

/// A JSON object with the fields `timestamp`, `from` and, when there is
/// one, `filename`, in that order, each value given as a JSON literal.
pub open spec fn header_object(ts: Seq<char>, from: Seq<char>, filename: Option<Seq<char>>) -> Seq<
    char,
> {
    "{\"timestamp\":"@ + ts + ",\"from\":"@ + from + match filename {
        Some(f) => ",\"filename\":"@ + f,
        None => Seq::empty(),
    } + "}"@
}

/// The text of a header.
pub open spec fn header_text(h: ServerHeader) -> Seq<char> {
    header_object(
        json_string_of(rfc3339_of(h.timestamp.secs, h.timestamp.nanos)),
        json_string_of(h.from@),
        match h.filename {
            Some(f) => Some(json_string_of(f@)),
            None => None,
        },
    )
}

/// The bytes of a header: its text in UTF-8.
pub open spec fn header_bytes(h: ServerHeader) -> Seq<u8> {
    encode_utf8(header_text(h))
}

/// Builds the header object from the JSON literals of its values.
pub fn assemble_header(ts: &str, from: &str, filename: Option<&str>) -> (r: String)
    ensures
        r@ == header_object(
            ts@,
            from@,
            match filename {
                Some(f) => Some(f@),
                None => None,
            },
        ),
{
    let mut s = "{\"timestamp\":".to_owned();
    s.append(ts);
    s.append(",\"from\":");
    s.append(from);
    let ghost tail: Seq<char> = Seq::empty();
    match filename {
        Some(f) => {
            s.append(",\"filename\":");
            s.append(f);
            proof {
                tail = ",\"filename\":"@ + f@;
            }
        },
        None => {},
    }
    s.append("}");
    assert(s@ =~= "{\"timestamp\":"@ + ts@ + ",\"from\":"@ + from@ + tail + "}"@);
    s
}

impl ServerHeader {
    /// A header stamped `timestamp`, with an empty sender and no file name.
    pub fn new(timestamp: Timestamp) -> (r: Self)
        ensures
            r.timestamp == timestamp,
            r.from@ == Seq::<char>::empty(),
            r.filename is None,
    {
        ServerHeader { timestamp, from: String::new(), filename: None }
    }

    pub fn with_username(self, username: String) -> (r: Self)
        ensures
            r.timestamp == self.timestamp,
            r.from@ == username@,
            r.filename == self.filename,
    {
        ServerHeader { from: username, ..self }
    }

    pub fn with_filename(self, filename: String) -> (r: Self)
        ensures
            r.timestamp == self.timestamp,
            r.from@ == self.from@,
            r.filename == Some(filename),
    {
        ServerHeader { filename: Some(filename), ..self }
    }

    /// The header as UTF-8 JSON text.
    pub fn to_json(&self) -> (r: Vec<u8>)
        requires
            self.timestamp.wf(),
        ensures
            r@ == header_bytes(*self),
    {
        let ts = json_string(self.timestamp.to_rfc3339().as_str());
        let from = json_string(self.from.as_str());
        let text = match &self.filename {
            Some(f) => {
                let fj = json_string(f.as_str());
                assemble_header(ts.as_str(), from.as_str(), Some(fj.as_str()))
            },
            None => assemble_header(ts.as_str(), from.as_str(), None),
        };
        let mut r: Vec<u8> = Vec::new();
        append_bytes(&mut r, text.as_str().as_bytes());
        r
    }
}

} // verus!
