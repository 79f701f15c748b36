//! The checkpoint log.

use cirrus::checkpoint_store::{default_path, latest, push_path, record_of, CheckpointRecord};
use cirrus::engine::CheckpointSnapshot;

fn line(r: &CheckpointRecord) -> String {
    let mut m = serde_json::Map::new();
    m.insert("timestamp_ns".into(), serde_json::Value::from(r.timestamp_ns));
    m.insert("run_uid".into(), serde_json::Value::from(r.run_uid.clone()));
    m.insert("cirrus_version".into(), serde_json::Value::from(r.cirrus_version.clone()));
    serde_json::to_string(&serde_json::Value::Object(m)).unwrap()
}

#[test]
fn append_then_latest_round_trip() {
    let mut log = String::new();
    for (ns, uid) in [(1_000, "r1"), (2_000, "r2")] {
        let snap = CheckpointSnapshot { timestamp_ns: ns, run_uid: Some(uid.into()) };
        log.push_str(&line(&record_of(snap, "0.1.0")));
        log.push('\n');
    }
    let last = latest(&log).expect("latest");
    let last: serde_json::Value = serde_json::from_str(&last).unwrap();
    assert_eq!(last["timestamp_ns"], serde_json::Value::from(2_000));
    assert_eq!(last["run_uid"], serde_json::Value::from("r2"));
    assert_eq!(last["cirrus_version"], serde_json::Value::from("0.1.0"));
}

#[test]
fn blank_lines_do_not_count() {
    assert_eq!(latest(""), None);
    assert_eq!(latest("\n \t\r\n\u{3000}\n"), None);
    assert_eq!(latest("one\ntwo\r\n  \n\n"), Some("two".to_string()));
    assert_eq!(latest("one\ntwo"), Some("two".to_string()));
    assert_eq!(latest("one\n two \r"), Some(" two \r".to_string()));
}

#[test]
fn the_log_stands_under_the_state_directory() {
    assert_eq!(
        default_path(Some("/s".into()), Some("/h".into())),
        "/s/cirrus/checkpoints.jsonl"
    );
    assert_eq!(default_path(None, Some("/h/".into())), "/h/.cirrus/checkpoints.jsonl");
    assert_eq!(default_path(None, None), ".cirrus_checkpoints.jsonl");
    assert_eq!(push_path("", "x"), "x");
}
