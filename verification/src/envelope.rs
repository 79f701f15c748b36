//! The wire form of documents: prefix, document name and body, with a space after each of the
//! first two.

use vstd::prelude::*;
use vstd::string::*;
use vstd::utf8::*;

use crate::codec::{
    decode_json, decode_msgpack, json_of_bytes, msgpack_of_bytes, utf8_error, utf8_text,
};
use crate::documents::{document_name, document_name_of, Document};
use crate::error::CirrusError;
use crate::msg::{debug_str, str_debug};
use crate::text::{join2, str_eq};
use crate::value::{Json, JsonView};

verus! {

/// How the body of a document is written.
#[derive(Copy, Clone, Debug, PartialEq, Eq, Structural)]
pub enum Serializer {
    /// msgpack.
    Msgpack,
    /// JSON.
    Json,
}

/// The separator of the fields.
pub open spec fn separator() -> u8 {
    32
}

/// The wire form of a document.
pub open spec fn envelope_bytes(prefix: Seq<u8>, name: Seq<u8>, body: Seq<u8>) -> Seq<u8> {
    prefix + seq![separator()] + name + seq![separator()] + body
}

/// Position of the first separator at or after `from`.
pub open spec fn first_separator(raw: Seq<u8>, from: int) -> Option<int>
    decreases raw.len() - from,
{
    if from < 0 || from >= raw.len() {
        None
    } else if raw[from] == separator() {
        Some(from)
    } else {
        first_separator(raw, from + 1)
    }
}

/// What the first separator at or after `from` is.
proof fn lemma_first_separator(raw: Seq<u8>, from: int)
    requires
        0 <= from <= raw.len(),
    ensures
        match first_separator(raw, from) {
            Some(p) => from <= p < raw.len() && raw[p] == separator() && forall|i: int|
                from <= i < p ==> raw[i] != separator(),
            None => forall|i: int| from <= i < raw.len() ==> raw[i] != separator(),
        },
    decreases raw.len() - from,
{
    if from < raw.len() && raw[from] != separator() {
        lemma_first_separator(raw, from + 1);
    }
}

/// The name and the body of a wire form, or the text of the error.
pub open spec fn split_spec(raw: Seq<u8>) -> Result<(Seq<char>, Seq<u8>), Seq<char>> {
    match first_separator(raw, 0) {
        None => Err("zmq envelope: no prefix separator"@),
        Some(p1) => match first_separator(raw, p1 + 1) {
            None => Err("zmq envelope: no name separator"@),
            Some(p2) => {
                let name = raw.subrange(p1 + 1, p2);
                if valid_utf8(name) {
                    Ok((decode_utf8(name), raw.subrange(p2 + 1, raw.len() as int)))
                } else {
                    Err("zmq envelope name not utf8: "@ + utf8_error(name))
                }
            },
        },
    }
}

/// The layout that a sink writes documents in.
#[derive(Debug)]
pub struct EnvelopeFormat {
    prefix: Vec<u8>,
    serializer: Serializer,
}

impl EnvelopeFormat {
    /// The bytes that every message begins with.
    pub closed spec fn prefix(self) -> Seq<u8> {
        self.prefix@
    }

    /// How bodies are written.
    pub closed spec fn body_format(self) -> Serializer {
        self.serializer
    }

    /// The default layout: no prefix, msgpack bodies.
    pub fn new() -> (f: Self)
        ensures
            f.prefix() == Seq::<u8>::empty(),
            f.body_format() == Serializer::Msgpack,
    {
        EnvelopeFormat { prefix: Vec::new(), serializer: Serializer::Msgpack }
    }

    /// The layout with another prefix. A prefix must not contain a space.
    pub fn with_prefix(self, prefix: Vec<u8>) -> (r: Result<Self, CirrusError>)
        ensures
            match r {
                Ok(f) => !prefix@.contains(separator()) && f.prefix() == prefix@
                    && f.body_format() == self.body_format(),
                Err(e) => prefix@.contains(separator()) && match e {
                    CirrusError::InvalidValue(m) => m@
                        == "ZmqDocumentSink prefix must not contain b' '"@,
                    _ => false,
                },
            },
    {
        let mut i: usize = 0;
        while i < prefix.len()
            invariant
                i <= prefix.len(),
                forall|k: int| 0 <= k < i ==> prefix@[k] != separator(),
            decreases prefix.len() - i,
        {
            if prefix[i] == 32 {
                assert(prefix@[i as int] == separator());
                return Err(
                    CirrusError::InvalidValue(
                        "ZmqDocumentSink prefix must not contain b' '".to_owned(),
                    ),
                );
            }
            i += 1;
        }
        Ok(EnvelopeFormat { prefix, serializer: self.serializer })
    }

    /// The layout with another body format.
    pub fn with_serializer(self, s: Serializer) -> (f: Self)
        ensures
            f.prefix() == self.prefix(),
            f.body_format() == s,
    {
        EnvelopeFormat { prefix: self.prefix, serializer: s }
    }

    /// How bodies are written.
    pub fn serializer(&self) -> (s: Serializer)
        ensures
            s == self.body_format(),
    {
        self.serializer
    }

    /// The wire form of a document with an encoded body.
    pub fn build_envelope(&self, doc: &Document, body: &Vec<u8>) -> (raw: Vec<u8>)
        ensures
            raw@ == envelope_bytes(
                self.prefix(),
                encode_utf8(document_name_of(*doc)),
                body@,
            ),
    {
        let name = document_name(doc).as_bytes();
        let mut raw: Vec<u8> = Vec::new();
        extend_bytes(&mut raw, self.prefix.as_slice());
        raw.push(32);
        extend_bytes(&mut raw, name);
        raw.push(32);
        extend_bytes(&mut raw, body.as_slice());
        assert(raw@ =~= envelope_bytes(
            self.prefix(),
            encode_utf8(document_name_of(*doc)),
            body@,
        ));
        raw
    }
}

/// Appends bytes.
fn extend_bytes(to: &mut Vec<u8>, from: &[u8])
    ensures
        final(to)@ == old(to)@ + from@,
{
    let ghost start = to@;
    let mut i: usize = 0;
    while i < from.len()
        invariant
            i <= from.len(),
            to@ == start + from@.take(i as int),
        decreases from.len() - i,
    {
        to.push(from[i]);
        i += 1;
        assert(to@ =~= start + from@.take(i as int));
    }
    assert(from@.take(from@.len() as int) =~= from@);
}

/// Position of the first separator at or after `from`.
fn find_separator(raw: &Vec<u8>, from: usize) -> (at: Option<usize>)
    requires
        from <= raw@.len(),
    ensures
        match at {
            Some(p) => first_separator(raw@, from as int) == Some(p as int) && from <= p
                < raw@.len(),
            None => first_separator(raw@, from as int) is None,
        },
{
    let mut i: usize = from;
    while i < raw.len()
        invariant
            from <= i <= raw.len(),
            first_separator(raw@, i as int) == first_separator(raw@, from as int),
        decreases raw.len() - i,
    {
        if raw[i] == 32 {
            return Some(i);
        }
        i += 1;
    }
    None
}

/// A part of a byte vector.
fn part(raw: &Vec<u8>, from: usize, to: usize) -> (v: Vec<u8>)
    requires
        from <= to <= raw@.len(),
    ensures
        v@ == raw@.subrange(from as int, to as int),
{
    let mut v: Vec<u8> = Vec::new();
    let mut i: usize = from;
    while i < to
        invariant
            from <= i <= to <= raw@.len(),
            v@ == raw@.subrange(from as int, i as int),
        decreases to - i,
    {
        v.push(raw[i]);
        i += 1;
        assert(v@ =~= raw@.subrange(from as int, i as int));
    }
    v
}

/// Whether `r` is a backend error with the given text.
pub open spec fn backend_error(e: CirrusError, text: Seq<char>) -> bool {
    e matches CirrusError::Backend(m) && m@ == text
}

/// Splits a wire form into the document name and the body.
pub fn split_envelope(raw: &Vec<u8>) -> (r: Result<(String, Vec<u8>), CirrusError>)
    ensures
        match r {
            Ok((name, body)) => split_spec(raw@) == Ok::<(Seq<char>, Seq<u8>), Seq<char>>(
                (name@, body@),
            ),
            Err(e) => split_spec(raw@) is Err && backend_error(e, split_spec(raw@)->Err_0),
        },
{
    let n: usize = raw.len();
    let p1 = match find_separator(raw, 0) {
        Some(p) => p,
        None => {
            return Err(CirrusError::Backend("zmq envelope: no prefix separator".to_owned()));
        },
    };
    let p2 = match find_separator(raw, p1 + 1) {
        Some(p) => p,
        None => {
            return Err(CirrusError::Backend("zmq envelope: no name separator".to_owned()));
        },
    };
    let name_bytes = part(raw, p1 + 1, p2);
    match utf8_text(name_bytes.as_slice()) {
        Ok(name) => Ok((name, part(raw, p2 + 1, n))),
        Err(e) => Err(CirrusError::Backend(join2("zmq envelope name not utf8: ", &e))),
    }
}

/// The kind of a document on the wire.
#[derive(Copy, Clone, Debug, PartialEq, Eq, Structural)]
pub enum DocumentKind {
    /// Run start.
    Start,
    /// Stream descriptor.
    Descriptor,
    /// One event.
    Event,
    /// Page of events.
    EventPage,
    /// External resource.
    Resource,
    /// Datum.
    Datum,
    /// Page of datums.
    DatumPage,
    /// Stream resource.
    StreamResource,
    /// Slice of a stream resource.
    StreamDatum,
    /// Run stop.
    Stop,
}

/// The name of a kind on the wire.
pub open spec fn kind_name(k: DocumentKind) -> Seq<char> {
    match k {
        DocumentKind::Start => "start"@,
        DocumentKind::Descriptor => "descriptor"@,
        DocumentKind::Event => "event"@,
        DocumentKind::EventPage => "event_page"@,
        DocumentKind::Resource => "resource"@,
        DocumentKind::Datum => "datum"@,
        DocumentKind::DatumPage => "datum_page"@,
        DocumentKind::StreamResource => "stream_resource"@,
        DocumentKind::StreamDatum => "stream_datum"@,
        DocumentKind::Stop => "stop"@,
    }
}

/// The kind of a document.
pub open spec fn kind_of(d: Document) -> DocumentKind {
    match d {
        Document::Start(_) => DocumentKind::Start,
        Document::Descriptor(_) => DocumentKind::Descriptor,
        Document::Event(_) => DocumentKind::Event,
        Document::EventPage(_) => DocumentKind::EventPage,
        Document::Resource(_) => DocumentKind::Resource,
        Document::Datum(_) => DocumentKind::Datum,
        Document::DatumPage(_) => DocumentKind::DatumPage,
        Document::StreamResource(_) => DocumentKind::StreamResource,
        Document::StreamDatum(_) => DocumentKind::StreamDatum,
        Document::Stop(_) => DocumentKind::Stop,
    }
}

/// Reads the name of a kind.
pub fn kind_named(name: &str) -> (k: Option<DocumentKind>)
    ensures
        match k {
            Some(k) => kind_name(k) == name@,
            None => forall|k: DocumentKind| kind_name(k) != name@,
        },
{
    if str_eq(name, "start") {
        Some(DocumentKind::Start)
    } else if str_eq(name, "descriptor") {
        Some(DocumentKind::Descriptor)
    } else if str_eq(name, "event") {
        Some(DocumentKind::Event)
    } else if str_eq(name, "event_page") {
        Some(DocumentKind::EventPage)
    } else if str_eq(name, "resource") {
        Some(DocumentKind::Resource)
    } else if str_eq(name, "datum") {
        Some(DocumentKind::Datum)
    } else if str_eq(name, "datum_page") {
        Some(DocumentKind::DatumPage)
    } else if str_eq(name, "stream_resource") {
        Some(DocumentKind::StreamResource)
    } else if str_eq(name, "stream_datum") {
        Some(DocumentKind::StreamDatum)
    } else if str_eq(name, "stop") {
        Some(DocumentKind::Stop)
    } else {
        None
    }
}

/// What a body holds, or the text of the error.
pub open spec fn body_spec(s: Serializer, body: Seq<u8>) -> Result<JsonView, Seq<char>> {
    match s {
        Serializer::Json => match json_of_bytes(body) {
            Ok(j) => Ok(j),
            Err(e) => Err("zmq json decode: "@ + e),
        },
        Serializer::Msgpack => match msgpack_of_bytes(body) {
            Ok(j) => Ok(j),
            Err(e) => Err("zmq msgpack decode: "@ + e),
        },
    }
}

/// Reads the body of a document.
pub fn decode_body(s: Serializer, body: &Vec<u8>) -> (r: Result<Json, CirrusError>)
    ensures
        match r {
            Ok(j) => body_spec(s, body@) == Ok::<JsonView, Seq<char>>(j.deep_view()),
            Err(e) => body_spec(s, body@) is Err && backend_error(e, body_spec(s, body@)->Err_0),
        },
{
    match s {
        Serializer::Json => match decode_json(body.as_slice()) {
            Ok(j) => Ok(j),
            Err(e) => Err(CirrusError::Backend(join2("zmq json decode: ", &e))),
        },
        Serializer::Msgpack => match decode_msgpack(body.as_slice()) {
            Ok(j) => Ok(j),
            Err(e) => Err(CirrusError::Backend(join2("zmq msgpack decode: ", &e))),
        },
    }
}

/// The kind that a decoded name stands for, with the decoded body.
pub fn name_body(name: &str, value: Json) -> (r: Result<(DocumentKind, Json), CirrusError>)
    ensures
        match r {
            Ok((k, j)) => kind_name(k) == name@ && j == value,
            Err(e) => (forall|k: DocumentKind| kind_name(k) != name@) && backend_error(
                e,
                "zmq envelope: unknown doc name "@ + str_debug(name@),
            ),
        },
{
    match kind_named(name) {
        Some(k) => Ok((k, value)),
        None => Err(
            CirrusError::Backend(join2("zmq envelope: unknown doc name ", &debug_str(name))),
        ),
    }
}

/// Reads a wire form: the kind of the document and its body.
pub fn decode_envelope(serializer: Serializer, raw: &Vec<u8>) -> (r: Result<
    (DocumentKind, Json),
    CirrusError,
>)
    ensures
        match split_spec(raw@) {
            Err(text) => r is Err && backend_error(r->Err_0, text),
            Ok((name, body)) => match body_spec(serializer, body) {
                Err(text) => r is Err && backend_error(r->Err_0, text),
                Ok(value) => match r {
                    Ok((k, j)) => kind_name(k) == name && j.deep_view() == value,
                    Err(e) => (forall|k: DocumentKind| kind_name(k) != name) && backend_error(
                        e,
                        "zmq envelope: unknown doc name "@ + str_debug(name),
                    ),
                },
            },
        },
{
    let (name, body) = match split_envelope(raw) {
        Ok(p) => p,
        Err(e) => {
            return Err(e);
        },
    };
    let value = match decode_body(serializer, &body) {
        Ok(v) => v,
        Err(e) => {
            return Err(e);
        },
    };
    name_body(&name, value)
}

/// What waiting for a message brought.
#[derive(Debug)]
pub enum Received {
    /// No message came in time.
    Nothing,
    /// A message.
    Message(Vec<u8>),
    /// The socket failed.
    Failed(String),
    /// The thread that waited ended early.
    Lost(String),
}

/// What a document source does with what it received.
#[derive(Debug)]
pub enum SourceStep {
    /// Wait again.
    Wait,
    /// Hand the document on.
    Inject(DocumentKind, Json),
    /// Report the malformed message and wait again.
    Skip(CirrusError),
    /// Stop with an error.
    Stop(CirrusError),
}

/// The outcome of reading one message: nothing if none was there.
pub fn received(serializer: Serializer, r: Received) -> (out: Result<
    Option<(DocumentKind, Json)>,
    CirrusError,
>)
    ensures
        match r {
            Received::Nothing => out == Ok::<Option<(DocumentKind, Json)>, CirrusError>(None),
            Received::Failed(e) => out is Err && backend_error(out->Err_0, "zmq recv: "@ + e@),
            Received::Lost(e) => out is Err && backend_error(
                out->Err_0,
                "zmq spawn_blocking join: "@ + e@,
            ),
            Received::Message(raw) => match split_spec(raw@) {
                Err(text) => out is Err && backend_error(out->Err_0, text),
                Ok((name, body)) => match body_spec(serializer, body) {
                    Err(text) => out is Err && backend_error(out->Err_0, text),
                    Ok(value) => match out {
                        Ok(Some((k, j))) => kind_name(k) == name && j.deep_view() == value,
                        Ok(None) => false,
                        Err(e) => (forall|k: DocumentKind| kind_name(k) != name) && backend_error(
                            e,
                            "zmq envelope: unknown doc name "@ + str_debug(name),
                        ),
                    },
                },
            },
        },
{
    match r {
        Received::Nothing => Ok(None),
        Received::Failed(e) => Err(CirrusError::Backend(join2("zmq recv: ", &e))),
        Received::Lost(e) => Err(CirrusError::Backend(join2("zmq spawn_blocking join: ", &e))),
        Received::Message(raw) => match decode_envelope(serializer, &raw) {
            Ok(p) => Ok(Some(p)),
            Err(e) => Err(e),
        },
    }
}

/// What a document source does next: a malformed message is skipped, a failed socket ends it.
pub fn source_step(serializer: Serializer, r: Received) -> (step: SourceStep)
    ensures
        match r {
            Received::Nothing => step is Wait,
            Received::Failed(e) => step is Stop && backend_error(
                step->Stop_0,
                "zmq recv: "@ + e@,
            ),
            Received::Lost(e) => step is Stop && backend_error(
                step->Stop_0,
                "zmq spawn_blocking join: "@ + e@,
            ),
            Received::Message(raw) => match split_spec(raw@) {
                Err(text) => step is Skip && backend_error(step->Skip_0, text),
                Ok((name, body)) => match body_spec(serializer, body) {
                    Err(text) => step is Skip && backend_error(step->Skip_0, text),
                    Ok(value) => match step {
                        SourceStep::Inject(k, j) => kind_name(k) == name && j.deep_view() == value,
                        SourceStep::Skip(e) => (forall|k: DocumentKind| kind_name(k) != name)
                            && backend_error(e, "zmq envelope: unknown doc name "@ + str_debug(name)),
                        _ => false,
                    },
                },
            },
        },
{
    let message = matches!(r, Received::Message(_));
    match received(serializer, r) {
        Ok(None) => SourceStep::Wait,
        Ok(Some((k, j))) => SourceStep::Inject(k, j),
        Err(e) => if message {
            SourceStep::Skip(e)
        } else {
            SourceStep::Stop(e)
        },
    }
}

/// The bytes of a text whose characters are all ASCII and none a space hold no separator.
proof fn lemma_ascii_name(name: Seq<char>)
    requires
        is_ascii_chars(name),
        forall|i: int| 0 <= i < name.len() ==> name[i] != ' ',
    ensures
        forall|i: int|
            0 <= i < encode_utf8(name).len() ==> encode_utf8(name)[i] != separator(),
{
    is_ascii_chars_encode_utf8(name);
}

/// Splitting what was put together gives back the name and the body, for every prefix without
/// a space.
pub proof fn law_envelope_round_trip(prefix: Seq<u8>, name: Seq<char>, body: Seq<u8>)
    requires
        !prefix.contains(separator()),
        is_ascii_chars(name),
        !name.contains(' '),
    ensures
        split_spec(envelope_bytes(prefix, encode_utf8(name), body)) == Ok::<
            (Seq<char>, Seq<u8>),
            Seq<char>,
        >((name, body)),
{
    let bytes = encode_utf8(name);
    let raw = envelope_bytes(prefix, bytes, body);
    let p1 = prefix.len() as int;
    let p2 = p1 + 1 + bytes.len();
    assert forall|i: int| 0 <= i < name.len() implies name[i] != ' ' by {
        assert(name.contains(name[i]));
    }
    lemma_ascii_name(name);
    lemma_first_separator(raw, 0);
    assert(raw[p1] == separator());
    assert forall|i: int| 0 <= i < p1 implies raw[i] != separator() by {
        assert(raw[i] == prefix[i]);
        assert(prefix.contains(prefix[i]));
    }
    assert(first_separator(raw, 0) == Some(p1));
    lemma_first_separator(raw, p1 + 1);
    assert(raw[p2] == separator());
    assert forall|i: int| p1 + 1 <= i < p2 implies raw[i] != separator() by {
        assert(raw[i] == bytes[i - p1 - 1]);
    }
    assert(first_separator(raw, p1 + 1) == Some(p2));
    assert(raw.subrange(p1 + 1, p2) =~= bytes);
    assert(raw.subrange(p2 + 1, raw.len() as int) =~= body);
    encode_utf8_valid_utf8(name);
    encode_utf8_decode_utf8(name);
}

/// The name of every document is ASCII without a space, so that every document that a sink
/// writes is split again into its name and its body.
pub proof fn law_every_document_splits(prefix: Seq<u8>, doc: Document, body: Seq<u8>)
    requires
        !prefix.contains(separator()),
    ensures
        document_name_of(doc) == kind_name(kind_of(doc)),
        split_spec(envelope_bytes(prefix, encode_utf8(document_name_of(doc)), body)) == Ok::<
            (Seq<char>, Seq<u8>),
            Seq<char>,
        >((kind_name(kind_of(doc)), body)),
{
    let name = document_name_of(doc);
    reveal_strlit("start");
    reveal_strlit("descriptor");
    reveal_strlit("event");
    reveal_strlit("event_page");
    reveal_strlit("resource");
    reveal_strlit("datum");
    reveal_strlit("datum_page");
    reveal_strlit("stream_resource");
    reveal_strlit("stream_datum");
    reveal_strlit("stop");
    assert(is_ascii_chars(name));
    assert(!name.contains(' '));
    law_envelope_round_trip(prefix, name, body);
}

/// Two kinds with the same name are the same kind.
pub proof fn law_kind_names_differ(a: DocumentKind, b: DocumentKind)
    requires
        kind_name(a) == kind_name(b),
    ensures
        a == b,
{
    reveal_strlit("start");
    reveal_strlit("descriptor");
    reveal_strlit("event");
    reveal_strlit("event_page");
    reveal_strlit("resource");
    reveal_strlit("datum");
    reveal_strlit("datum_page");
    reveal_strlit("stream_resource");
    reveal_strlit("stream_datum");
    reveal_strlit("stop");
    assert("stop"@.len() == 4);
    assert("start"@.len() == 5 && "start"@[0] == 's');
    assert("event"@.len() == 5 && "event"@[0] == 'e');
    assert("datum"@.len() == 5 && "datum"@[0] == 'd');
    assert("resource"@.len() == 8);
    assert("descriptor"@.len() == 10 && "descriptor"@[1] == 'e');
    assert("event_page"@.len() == 10 && "event_page"@[1] == 'v');
    assert("datum_page"@.len() == 10 && "datum_page"@[1] == 'a');
    assert("stream_datum"@.len() == 12);
    assert("stream_resource"@.len() == 15);
}

/// Whether the first two spaces of `raw` stand at `a` and at `b`.
pub open spec fn first_spaces(raw: Seq<u8>, a: int, b: int) -> bool {
    &&& 0 <= a < b < raw.len()
    &&& raw[a] == 32 && raw[b] == 32
    &&& forall|i: int| 0 <= i < b && i != a ==> raw[i] != 32
}

/// A message is taken apart at its first two spaces: between them stands the name, and all that
/// follows the second is the body, spaces or not. It is refused only where it lacks one of them or
/// where the name is not valid text.
pub proof fn law_message_is_taken_apart(raw: &Vec<u8>, r: Result<(String, Vec<u8>), CirrusError>)
    requires
        call_ensures(split_envelope, (raw,), r),
    ensures
        match r {
            Ok((name, body)) => exists|a: int, b: int| #[trigger]
                first_spaces(raw@, a, b) && valid_utf8(raw@.subrange(a + 1, b)) && name@
                    == decode_utf8(raw@.subrange(a + 1, b)) && body@ == raw@.skip(b + 1),
            Err(_) => forall|a: int, b: int| #[trigger]
                first_spaces(raw@, a, b) ==> !valid_utf8(raw@.subrange(a + 1, b)),
        },
{
    let raw = raw@;
    lemma_first_separator(raw, 0);
    if let Some(p1) = first_separator(raw, 0) {
        lemma_first_separator(raw, p1 + 1);
        if let Some(p2) = first_separator(raw, p1 + 1) {
            assert forall|i: int| 0 <= i < p2 && i != p1 implies raw[i] != 32 by {
                assert(i < p1 ==> raw[i] != separator());
                assert(p1 < i ==> raw[i] != separator());
            }
            assert(first_spaces(raw, p1, p2));
            assert(raw.skip(p2 + 1) =~= raw.subrange(p2 + 1, raw.len() as int));
            assert forall|a: int, b: int| #[trigger] first_spaces(raw, a, b) implies a == p1 && b
                == p2 by {
                lemma_first_spaces(raw, a, b, p1, p2);
            }
        } else {
            assert forall|a: int, b: int| #[trigger] first_spaces(raw, a, b) implies false by {
                assert(a < p1 ==> raw[a] != separator());
                assert(p1 < b ==> raw[b] != separator());
                assert(b < p1 ==> raw[b] != separator());
                assert(p1 < a ==> raw[a] != separator());
            }
        }
    } else {
        assert forall|a: int, b: int| #[trigger] first_spaces(raw, a, b) implies false by {
            assert(raw[a] != separator());
        }
    }
}

/// The first two spaces stand at one pair of places only.
proof fn lemma_first_spaces(raw: Seq<u8>, a: int, b: int, c: int, d: int)
    requires
        first_spaces(raw, a, b),
        first_spaces(raw, c, d),
    ensures
        a == c,
        b == d,
{
    if a < c {
        assert(raw[a] != 32);
    }
    if c < a {
        assert(raw[c] != 32);
    }
    if b < d {
        assert(raw[b] != 32);
    }
    if d < b {
        assert(raw[d] != 32);
    }
}

/// What a sink writes for a document is read again as a document of that kind: a source hands it
/// on with the body that was encoded, whenever the body can be decoded, and otherwise skips it.
pub proof fn law_written_document_is_handed_on(
    f: &EnvelopeFormat,
    doc: &Document,
    body: &Vec<u8>,
    raw: Vec<u8>,
    s: Serializer,
    step: SourceStep,
)
    requires
        !f.prefix().contains(32u8),
        call_ensures(EnvelopeFormat::build_envelope, (f, doc, body), raw),
        call_ensures(source_step, (s, Received::Message(raw)), step),
    ensures
        f.prefix().is_prefix_of(raw@),
        raw@.skip(raw@.len() - body@.len()) == body@,
        ({
            let value = match s {
                Serializer::Json => json_of_bytes(body@),
                Serializer::Msgpack => msgpack_of_bytes(body@),
            };
            match step {
                SourceStep::Inject(k, j) => value == Ok::<JsonView, Seq<char>>(j.deep_view())
                    && match *doc {
                    Document::Start(_) => k is Start,
                    Document::Descriptor(_) => k is Descriptor,
                    Document::Event(_) => k is Event,
                    Document::EventPage(_) => k is EventPage,
                    Document::Resource(_) => k is Resource,
                    Document::Datum(_) => k is Datum,
                    Document::DatumPage(_) => k is DatumPage,
                    Document::StreamResource(_) => k is StreamResource,
                    Document::StreamDatum(_) => k is StreamDatum,
                    Document::Stop(_) => k is Stop,
                },
                SourceStep::Skip(_) => value is Err,
                _ => false,
            }
        }),
{
    law_every_document_splits(f.prefix(), *doc, body@);
    assert(f.prefix().is_prefix_of(raw@));
    assert(raw@.skip(raw@.len() - body@.len()) =~= body@);
    if let SourceStep::Inject(k, j) = step {
        law_kind_names_differ(k, kind_of(*doc));
    }
    if let SourceStep::Skip(e) = step {
        assert(kind_name(kind_of(*doc)) == document_name_of(*doc));
    }
}

/// A source that received nothing waits again, and a failed or lost socket ends it with the
/// reason.
pub proof fn law_failed_socket_ends_the_source(s: Serializer, r: Received, step: SourceStep)
    requires
        call_ensures(source_step, (s, r), step),
    ensures
        r is Nothing <==> step is Wait,
        (r is Failed || r is Lost) <==> step is Stop,
        r is Message <==> (step is Inject || step is Skip),
{
}

/// A layout keeps its prefix when the body format changes and its body format when the prefix
/// changes, and it never gets a prefix with a space.
pub proof fn law_layout_keeps_its_parts(
    f: EnvelopeFormat,
    prefix: Vec<u8>,
    s: Serializer,
    p: Result<EnvelopeFormat, CirrusError>,
    g: EnvelopeFormat,
)
    requires
        call_ensures(EnvelopeFormat::with_prefix, (f, prefix), p),
        call_ensures(EnvelopeFormat::with_serializer, (f, s), g),
    ensures
        p is Ok <==> forall|i: int| 0 <= i < prefix@.len() ==> prefix@[i] != 32,
        p matches Ok(h) ==> h.prefix() == prefix@ && h.body_format() == f.body_format(),
        g.prefix() == f.prefix() && g.body_format() == s,
{
    assert(prefix@.contains(separator()) ==> !(forall|i: int|
        0 <= i < prefix@.len() ==> prefix@[i] != 32));
}

} // verus!
