//! Composing the documents of a run.

use cirrus::bundler::RunBundler;
use cirrus::compose::RunBundle;
use cirrus::documents::{
    document_name, DataKey, Document, Dtype, EventDescriptor, RunStart, StreamRange,
};
use cirrus::error::CirrusError;
use cirrus::reading::TypedReading;
use cirrus::strmap::StrMap;
use cirrus::value::{Double, Json};

fn seconds(v: f64) -> Double {
    Double { bits: v.to_bits() }
}

fn keys(name: &str, dtype: Dtype) -> StrMap<DataKey> {
    let mut m = StrMap::new();
    m.insert(name.to_string(), DataKey::plain(format!("soft://{name}"), dtype, vec![]));
    m
}

fn readings(name: &str, value: f64) -> StrMap<TypedReading<Json>> {
    let mut m = StrMap::new();
    m.insert(
        name.to_string(),
        TypedReading::new(seconds(value), seconds(5.0)).into_value(),
    );
    m
}

fn bundle() -> (RunStart, RunBundle) {
    let start = RunBundle::start(Some(3), None, seconds(1.0));
    let b = RunBundle::open(&start);
    (start, b)
}

fn describe(b: &mut RunBundle, stream: &str, k: StrMap<DataKey>) -> (EventDescriptor, bool) {
    b.descriptor(stream, k, StrMap::new(), None, StrMap::new(), seconds(2.0))
}

#[test]
fn uids_are_fresh() {
    let (a, _) = bundle();
    let (b, _) = bundle();
    assert_eq!(a.uid.len(), 36);
    assert_eq!(a.uid.matches('-').count(), 4);
    assert_eq!(&a.uid[14..15], "4");
    assert_ne!(a.uid, b.uid);
    assert_eq!(a.scan_id, Some(3));
}

#[test]
fn events_are_numbered_per_stream() {
    let (start, mut b) = bundle();
    let (d, new) = describe(&mut b, "primary", keys("x", Dtype::Number));
    assert!(new);
    assert_eq!(d.run_start, start.uid);
    assert_eq!(b.descriptor_uid_for("primary"), Some(d.uid.clone()));
    describe(&mut b, "baseline", keys("x", Dtype::Number));
    for n in 1..=3 {
        let e = b.event("primary", StrMap::new(), StrMap::new(), seconds(3.0)).unwrap();
        assert_eq!(e.seq_num, n);
        assert_eq!(e.descriptor, d.uid);
    }
    let e = b.event("baseline", StrMap::new(), StrMap::new(), seconds(3.0)).unwrap();
    assert_eq!(e.seq_num, 1);
    assert!(b.event("nowhere", StrMap::new(), StrMap::new(), seconds(3.0)).is_none());
    let stop = b.stop("success", None, seconds(9.0));
    assert_eq!(stop.run_start, start.uid);
    assert_eq!(stop.exit_status, "success");
    assert_eq!(stop.num_events.get("primary"), Some(&3));
    assert_eq!(stop.num_events.get("baseline"), Some(&1));
    assert!(b.has_room(5));
}

#[test]
fn the_same_layout_keeps_its_descriptor() {
    let (_, mut b) = bundle();
    let (first, _) = describe(&mut b, "primary", keys("x", Dtype::Number));
    let (again, new) = describe(&mut b, "primary", keys("x", Dtype::Number));
    assert!(!new);
    assert_eq!(first.uid, again.uid);
    let (other, new) = describe(&mut b, "primary", keys("x", Dtype::Integer));
    assert!(!new);
    assert_ne!(first.uid, other.uid);
    assert_eq!(b.descriptor_uid_for("primary"), Some(first.uid));
}

#[test]
fn stream_assets_name_what_they_belong_to() {
    let (start, b) = bundle();
    let r = b.stream_resource("img".into(), "m".into(), "file:///x".into(), StrMap::new());
    assert_eq!(r.run_start, Some(start.uid));
    let d = b.stream_datum(
        r.uid.clone(),
        "d".into(),
        StreamRange { start: 0, stop: 4 },
        StreamRange { start: 1, stop: 5 },
    );
    assert_eq!(d.stream_resource, r.uid);
    assert_eq!(d.indices.stop, 4);
}

#[test]
fn a_bundle_becomes_a_descriptor_and_an_event() {
    let (_, b) = bundle();
    let mut bundler = RunBundler::new(b);
    bundler.create("primary".into()).unwrap();
    assert!(bundler.create("primary".into()).is_err());
    bundler
        .add_readings(
            readings("x", 4.0),
            keys("x", Dtype::Number),
            Some("dev".into()),
            Some(vec!["x".into()]),
        )
        .unwrap();
    let docs = bundler.save(seconds(6.0)).unwrap();
    assert_eq!(docs.iter().map(document_name).collect::<Vec<_>>(), vec!["descriptor", "event"]);
    match &docs[0] {
        Document::Descriptor(d) => {
            assert!(d.data_keys.contains_key("x"));
            let hints = d.hints.as_ref().unwrap();
            assert_eq!(hints.get("dev").unwrap().fields, Some(vec!["x".to_string()]));
            assert_eq!(bundler.descriptor_uid("primary"), Some(d.uid.clone()));
        }
        d => panic!("{d:?}"),
    }
    match &docs[1] {
        Document::Event(e) => {
            assert_eq!(e.seq_num, 1);
            assert!(matches!(e.data.get("x"), Some(Json::Real(v)) if *v == seconds(4.0)));
            assert_eq!(e.timestamps.get("x"), Some(&seconds(5.0)));
        }
        d => panic!("{d:?}"),
    }
    bundler.create("primary".into()).unwrap();
    let docs = bundler.save(seconds(7.0)).unwrap();
    assert_eq!(docs.iter().map(document_name).collect::<Vec<_>>(), vec!["event"]);
}

#[test]
fn bundling_out_of_order_is_refused() {
    let (_, b) = bundle();
    let mut bundler = RunBundler::new(b);
    let plan = |r: Result<(), CirrusError>| match r {
        Err(CirrusError::Plan(m)) => m,
        r => panic!("{r:?}"),
    };
    let m = plan(bundler.add_readings(StrMap::new(), StrMap::new(), None, None));
    assert_eq!(m, "read with no open bundle");
    assert!(bundler.save(seconds(1.0)).is_err());
    assert!(bundler.drop_bundle().is_err());
    bundler.create("s".into()).unwrap();
    assert_eq!(
        plan(bundler.create("s".into())),
        "create called while a previous bundle is still open"
    );
    bundler.drop_bundle().unwrap();
    assert!(bundler.descriptor_uid("s").is_none());
}

#[test]
fn a_declared_stream_is_not_described_again() {
    let (start, b) = bundle();
    let mut bundler = RunBundler::new(b);
    assert_eq!(bundler.start_uid(), start.uid);
    let d = bundler.declare_stream("mon".into(), keys("x", Dtype::Number), seconds(2.0));
    assert_eq!(bundler.descriptor_uid("mon"), Some(d.uid.clone()));
    let e = bundler.event("mon", StrMap::new(), StrMap::new(), seconds(3.0)).unwrap();
    assert_eq!(e.descriptor, d.uid);
    bundler.create("mon".into()).unwrap();
    assert_eq!(bundler.save(seconds(4.0)).unwrap().len(), 1);
    assert_eq!(bundler.compose().start_uid(), start.uid);
    assert_eq!(bundler.into_bundle().start_uid(), start.uid);
}

#[test]
fn events_refer_to_the_descriptor_on_record() {
    let (_, b) = bundle();
    let mut bundler = RunBundler::new(b);
    let d = bundler.declare_stream("mon".into(), keys("x", Dtype::Number), seconds(2.0));
    let again = bundler.declare_stream("mon".into(), keys("x", Dtype::Number), seconds(3.0));
    assert_eq!(again.uid, d.uid);
    let e = bundler.event("mon", StrMap::new(), StrMap::new(), seconds(4.0)).unwrap();
    assert_eq!(bundler.descriptor_uid("mon"), Some(e.descriptor));
    let other = bundler.declare_stream("mon".into(), keys("y", Dtype::Number), seconds(5.0));
    assert_ne!(other.uid, d.uid);
    let e = bundler.event("mon", StrMap::new(), StrMap::new(), seconds(6.0)).unwrap();
    assert_eq!(e.descriptor, d.uid);
    assert_eq!(bundler.descriptor_uid("mon"), Some(other.uid));
}

#[test]
fn infinite_readings_become_null() {
    let r = TypedReading::new(seconds(f64::NAN), seconds(0.0)).into_value();
    assert!(matches!(r.value, Json::Null));
    assert!(matches!(seconds(-2.5).into_json(), Json::Real(_)));
    assert!(matches!(seconds(f64::INFINITY).into_json(), Json::Null));
}

#[test]
fn maps_keep_one_value_per_key() {
    let mut m: StrMap<u64> = StrMap::new();
    m.insert("a".into(), 1);
    m.insert("b".into(), 2);
    m.insert("a".into(), 3);
    m.insert_if_absent("b".into(), 9);
    assert_eq!(m.len(), 2);
    assert_eq!(m.get("a"), Some(&3));
    assert_eq!(m.get("b"), Some(&2));
    assert_eq!(m.remove("a"), Some(3));
    assert_eq!(m.remove("a"), None);
    let mut other = StrMap::new();
    other.insert("b".into(), 7);
    other.insert("c".into(), 8);
    m.extend(other);
    assert_eq!(m.get("b"), Some(&7));
    assert_eq!(m.values().len(), 2);
}
