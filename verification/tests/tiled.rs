//! The sink that mirrors runs into a Tiled catalog.

use cirrus::documents::{Document, EventDescriptor, RunStart, RunStop};
use cirrus::strmap::StrMap;
use cirrus::tiled::{TiledAction, TiledSink};
use cirrus::value::{Double, Json};

fn text(s: &str) -> Json {
    Json::Str(s.to_string())
}

fn seconds(v: f64) -> Double {
    Double { bits: v.to_bits() }
}

fn make_run_start() -> (Document, Json) {
    let mut extra = StrMap::new();
    extra.insert("plan_name".into(), text("count"));
    extra.insert("operator".into(), text("alice"));
    let body = Json::Object(vec![
        ("uid".into(), text("run-1")),
        ("plan_name".into(), text("count")),
        ("operator".into(), text("alice")),
    ]);
    let doc = Document::Start(RunStart {
        uid: "run-1".into(),
        time: seconds(1.0),
        scan_id: Some(7),
        hints: None,
        sample: None,
        extra,
    });
    (doc, body)
}

fn make_run_stop() -> (Document, Json) {
    let body = Json::Object(vec![
        ("exit_status".into(), text("success")),
        ("run_start".into(), text("run-1")),
    ]);
    let doc = Document::Stop(RunStop {
        uid: "stop-1".into(),
        run_start: "run-1".into(),
        time: seconds(2.0),
        exit_status: "success".into(),
        reason: None,
        num_events: StrMap::new(),
    });
    (doc, body)
}

#[test]
fn dispatch_start_then_stop_hits_register_then_patch() {
    let mut sink = TiledSink::new("http://127.0.0.1:8000/api/v1/".into(), "bluesky");
    let (doc, body) = make_run_start();
    match sink.dispatch(&doc, body).expect("start dispatch ok") {
        TiledAction::Register { url, body } => {
            assert_eq!(url, "http://127.0.0.1:8000/api/v1/register/bluesky");
            assert_eq!(body.get("key").and_then(|k| k.as_str()).unwrap(), "run-1");
            let shown = format!("{body:?}");
            assert!(shown.contains("BlueskyRun"));
            let start = body.get("metadata").and_then(|m| m.get("start")).unwrap();
            assert_eq!(start.get("plan_name").and_then(|k| k.as_str()).unwrap(), "count");
            assert_eq!(start.get("operator").and_then(|k| k.as_str()).unwrap(), "alice");
        }
        action => panic!("{action:?}"),
    }
    let (doc, body) = make_run_stop();
    match sink.dispatch(&doc, body).expect("stop dispatch ok") {
        TiledAction::Patch { url, body } => {
            assert_eq!(url, "http://127.0.0.1:8000/api/v1/metadata/bluesky/run-1");
            let stop = body.get("metadata").and_then(|m| m.get("stop")).unwrap();
            assert_eq!(stop.get("exit_status").and_then(|k| k.as_str()).unwrap(), "success");
            assert_eq!(stop.get("run_start").and_then(|k| k.as_str()).unwrap(), "run-1");
        }
        action => panic!("{action:?}"),
    }
}

#[test]
fn dispatch_start_is_idempotent_for_same_run_uid() {
    let mut sink = TiledSink::new("http://127.0.0.1:8000/api/v1/".into(), "bluesky");
    let mut posts = 0;
    for _ in 0..3 {
        let (doc, body) = make_run_start();
        if let TiledAction::Register { .. } = sink.dispatch(&doc, body).unwrap() {
            posts += 1;
        }
    }
    assert_eq!(posts, 1);
}

#[test]
fn drop_event_documents_emit_no_http_traffic() {
    let mut sink = TiledSink::new("http://127.0.0.1:8000/api/v1/".into(), "bluesky");
    let descriptor = Document::Descriptor(EventDescriptor {
        uid: "d-1".into(),
        run_start: "run-1".into(),
        time: seconds(1.5),
        name: Some("primary".into()),
        data_keys: StrMap::new(),
        object_keys: StrMap::new(),
        configuration: StrMap::new(),
        hints: None,
    });
    assert!(matches!(sink.dispatch(&descriptor, Json::Null), Ok(TiledAction::Skip)));
}

#[test]
fn slashes_around_the_container_are_dropped() {
    let sink = TiledSink::new("http://h/api/v1/".into(), "/a/b//");
    assert_eq!(sink.url("/register/x").unwrap(), "http://h/api/v1/register/x");
    match sink.patch_run_stop("u", Json::Null).unwrap() {
        TiledAction::Patch { url, .. } => assert_eq!(url, "http://h/api/v1/metadata/a/b/u"),
        action => panic!("{action:?}"),
    }
}

#[test]
fn an_address_that_cannot_be_joined_is_reported() {
    let mut sink = TiledSink::new("not a url".into(), "c");
    let (doc, body) = make_run_start();
    assert!(sink.dispatch(&doc, body).is_err());
    let (doc, body) = make_run_stop();
    match sink.dispatch(&doc, body).unwrap() {
        TiledAction::Report(m) => assert!(m.contains("tiled url join: "), "{m}"),
        action => panic!("{action:?}"),
    }
}
