//! The wire form of documents.

use cirrus::documents::{Document, Hints, RunStart, RunStop};
use cirrus::envelope::{
    decode_body, decode_envelope, kind_named, name_body, received, source_step, split_envelope,
    DocumentKind, EnvelopeFormat, Received, Serializer, SourceStep,
};
use cirrus::error::CirrusError;
use cirrus::strmap::StrMap;
use cirrus::value::{Double, Json};

fn fake_start() -> Document {
    Document::Start(RunStart {
        uid: "abc".into(),
        time: Double { bits: 1234.5f64.to_bits() },
        scan_id: Some(1),
        hints: Some(Hints { dimensions: None }),
        sample: None,
        extra: StrMap::new(),
    })
}

fn fake_stop() -> Document {
    Document::Stop(RunStop {
        uid: "stop-1".into(),
        run_start: "run-1".into(),
        time: Double { bits: 2.0f64.to_bits() },
        exit_status: "success".into(),
        reason: None,
        num_events: StrMap::new(),
    })
}

fn backend<T: std::fmt::Debug>(r: Result<T, CirrusError>) -> String {
    match r {
        Err(CirrusError::Backend(m)) => m,
        r => panic!("{r:?}"),
    }
}

#[test]
fn envelope_layout_no_prefix() {
    let format = EnvelopeFormat::new();
    assert_eq!(format.serializer(), Serializer::Msgpack);
    let env = format.build_envelope(&fake_start(), &vec![1, 2, 3]);
    assert_eq!(env[0], b' ');
    let rest = &env[1..];
    let space = rest.iter().position(|&b| b == b' ').unwrap();
    assert_eq!(&rest[..space], b"start");
    assert_eq!(&rest[space + 1..], &[1, 2, 3]);
}

#[test]
fn prefix_with_space_rejected() {
    let res = EnvelopeFormat::new().with_prefix(b"bad prefix".to_vec());
    assert!(res.is_err());
}

#[test]
fn what_is_split_is_what_was_built() {
    let format = EnvelopeFormat::new()
        .with_prefix(b"beamline".to_vec())
        .unwrap()
        .with_serializer(Serializer::Json);
    let raw = format.build_envelope(&fake_stop(), &b"{\"a b\": 1}".to_vec());
    assert_eq!(raw, b"beamline stop {\"a b\": 1}".to_vec());
    let (name, body) = split_envelope(&raw).unwrap();
    assert_eq!(name, "stop");
    assert_eq!(body, b"{\"a b\": 1}".to_vec());
    let (kind, value) = decode_envelope(Serializer::Json, &raw).unwrap();
    assert_eq!(kind, DocumentKind::Stop);
    assert_eq!(value.get("a b").and_then(|j| j.as_i64()), Some(1));
}

#[test]
fn msgpack_bodies_are_read() {
    let mut value = serde_json::Map::new();
    value.insert("uid".into(), serde_json::Value::from("test-uid"));
    value.insert("scan_id".into(), serde_json::Value::from(7));
    let body = rmp_serde::to_vec_named(&serde_json::Value::Object(value)).unwrap();
    let json = decode_body(Serializer::Msgpack, &body).unwrap();
    assert_eq!(json.get("uid").and_then(|j| j.as_str()).map(|s| s.as_str()), Some("test-uid"));
    assert_eq!(json.get("scan_id").and_then(|j| j.as_i64()), Some(7));
    assert!(backend(decode_body(Serializer::Msgpack, &vec![])).starts_with("zmq msgpack decode: "));
    assert!(backend(decode_body(Serializer::Json, &b"{".to_vec())).starts_with("zmq json decode: "));
}

#[test]
fn malformed_envelopes_are_told_apart() {
    let none = backend(split_envelope(&b"nothing".to_vec()));
    assert_eq!(none, "zmq envelope: no prefix separator");
    assert_eq!(backend(split_envelope(&b" start".to_vec())), "zmq envelope: no name separator");
    let raw = vec![b' ', 0xff, b' '];
    assert!(backend(split_envelope(&raw)).starts_with("zmq envelope name not utf8: "));
    assert_eq!(
        backend(decode_envelope(Serializer::Json, &b" else {}".to_vec())),
        "zmq envelope: unknown doc name \"else\""
    );
    assert!(name_body("stop", Json::Null).is_ok());
}

#[test]
fn every_document_name_is_known() {
    let names = [
        ("start", DocumentKind::Start),
        ("descriptor", DocumentKind::Descriptor),
        ("event", DocumentKind::Event),
        ("event_page", DocumentKind::EventPage),
        ("resource", DocumentKind::Resource),
        ("datum", DocumentKind::Datum),
        ("datum_page", DocumentKind::DatumPage),
        ("stream_resource", DocumentKind::StreamResource),
        ("stream_datum", DocumentKind::StreamDatum),
        ("stop", DocumentKind::Stop),
    ];
    for (name, kind) in names {
        assert_eq!(kind_named(name), Some(kind));
    }
    assert_eq!(kind_named("Start"), None);
}

#[test]
fn a_source_skips_what_it_cannot_read() {
    let s = Serializer::Json;
    assert!(matches!(source_step(s, Received::Nothing), SourceStep::Wait));
    assert!(matches!(source_step(s, Received::Message(b"x".to_vec())), SourceStep::Skip(_)));
    match source_step(s, Received::Failed("closed".into())) {
        SourceStep::Stop(e) => assert_eq!(e, CirrusError::Backend("zmq recv: closed".into())),
        step => panic!("{step:?}"),
    }
    match source_step(s, Received::Lost("panic".into())) {
        SourceStep::Stop(e) => {
            assert_eq!(e, CirrusError::Backend("zmq spawn_blocking join: panic".into()))
        }
        step => panic!("{step:?}"),
    }
    match source_step(s, Received::Message(b"p stop {}".to_vec())) {
        SourceStep::Inject(k, j) => assert!(k == DocumentKind::Stop && j.is_object()),
        step => panic!("{step:?}"),
    }
    assert!(matches!(received(s, Received::Nothing), Ok(None)));
    assert!(received(s, Received::Message(b"x".to_vec())).is_err());
}
