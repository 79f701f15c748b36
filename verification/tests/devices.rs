//! Signals, soft devices and detectors.

use std::sync::atomic::Ordering;
use std::sync::Arc;

use cirrus::detector::{
    idle_status, open_writer, still_flying, trigger_next, DetectorControl, DetectorWriter,
    StreamAsset, TriggerInfo, TriggerNext,
};
use cirrus::device::{
    CollectableObj, FlyableObj, LocatableObj, MovableObj, NamedObj, PausableObj, ReadableObj,
    StageableObj, TriggerableObj,
};
use cirrus::documents::Dtype;
use cirrus::error::{CirrusError, Span};
use cirrus::kind::Kind;
use cirrus::lua_device::{pause_counts, LuaPausableCounter};
use cirrus::mock::MockBackend;
use cirrus::signal::{Signal, SignalBackend, SignalConfig, ToJson};
use cirrus::soft::{SoftMotor, SoftSignalBackend};
use cirrus::soft_detector::{soft_detector, SoftDetector, SoftDetectorControl, SoftDetectorWriter};
use cirrus::status::{Status, StatusError, StatusOutcome};
use cirrus::strmap::StrMap;
use cirrus::value::{Double, Json};

fn number(v: f64) -> Double {
    Double { bits: v.to_bits() }
}

fn config(name: &str, kind: Kind) -> SignalConfig {
    SignalConfig { source: format!("soft://{name}"), kind, name: name.to_string() }
}

#[test]
fn a_written_value_is_read_back() {
    let backend = SoftSignalBackend::new(number(0.5), Dtype::Number)
        .with_units("mm")
        .with_dtype_numpy("<f8");
    let mut s = Signal::<Double, SoftSignalBackend<Double>>::new(backend, config("x", Kind::Hinted));
    s.connect(Span { secs: 1, nanos: 0 }).unwrap();
    assert_eq!(s.get(), Ok(number(0.5)));
    s.subscribe(11);
    let (status, fire) = s.put(number(2.0));
    assert!(status.success());
    assert_eq!(fire, vec![11]);
    assert_eq!(s.get(), Ok(number(2.0)));
    assert_eq!(s.get_setpoint(), Ok(number(2.0)));
    let r = s.read(number(7.0)).unwrap();
    let r = r.get("x").unwrap();
    assert!(matches!(r.value, Json::Real(v) if v == number(2.0)));
    assert_eq!(r.timestamp, number(7.0));
    let d = s.describe().unwrap();
    let d = d.get("x").unwrap();
    assert_eq!(d.units.as_deref(), Some("mm"));
    assert_eq!(d.dtype_numpy.as_deref(), Some("<f8"));
    assert_eq!(s.hint_fields(), Some(vec!["x".to_string()]));
    assert_eq!(s.name(), "x");
}

#[test]
fn a_cancelled_subscription_hears_nothing() {
    let mut b = SoftSignalBackend::new(1i64, Dtype::Integer);
    let mut first = b.set_callback(Some(1));
    b.set_callback(Some(2));
    assert_eq!(b.write_now(5), vec![1, 2]);
    b.unsubscribe(first.release().unwrap());
    assert_eq!(b.write_now(6), vec![2]);
    assert_eq!(b.get_value(), Ok(6));
    assert_eq!(b.set_callback(None).release(), None);
    assert_eq!(b.write_now(7), vec![2]);
    assert_eq!(b.source("n"), "soft://n");
}

#[test]
fn signals_with_other_kinds_are_not_hinted() {
    let s = Signal::<i64, MockBackend<i64>>::new(MockBackend::new(3), config("n", Kind::Normal));
    assert_eq!(s.kind(), Kind::Normal);
    assert_eq!(s.hint_fields(), None);
    assert_eq!(s.read_dyn(number(0.0)).unwrap().len(), 1);
    assert_eq!(SignalConfig::default().kind, Kind::Normal);
}

#[test]
fn the_mock_backend_keeps_what_it_was_made_with() {
    let mut b = MockBackend::new(number(4.0));
    assert!(SignalBackend::<Double>::connect(&mut b, Span { secs: 0, nanos: 0 }).is_ok());
    let (s, fire) = b.put(number(5.0), true, None);
    assert!(s.success() && fire.is_empty());
    assert_eq!(b.get_value(), Ok(number(4.0)));
    assert_eq!(SignalBackend::<Double>::source(&b, "n"), "mock://n");
    assert!(matches!(true.to_json(), Json::Bool(true)));
    assert!(matches!("t".to_string().to_json(), Json::Str(s) if s == "t"));
}

#[test]
fn a_soft_motor_moves_at_once() {
    let mut m = SoftMotor::new("m1", Some(number(0.5)));
    assert_eq!(m.name(), "m1");
    let at = m.locate_dyn().unwrap();
    assert_eq!((at.setpoint, at.readback), (number(0.5), number(0.5)));
    let (s, _) = m.set_dyn(number(1.5));
    assert!(s.success());
    assert_eq!(m.locate().unwrap().readback, number(1.5));
    let r = m.read_dyn(number(9.0)).unwrap();
    assert!(matches!(r.get("m1").unwrap().value, Json::Real(v) if v == number(1.5)));
    assert!(m.describe_dyn().unwrap().contains_key("m1"));
    assert!(m.stop_on_pause(true).is_ok());
    assert_eq!(SoftMotor::new("m2", None).locate().unwrap().setpoint, number(0.0));
}

#[test]
fn a_soft_detector_counts() {
    let mut d = SoftDetector::new("det1");
    let counts = |d: &SoftDetector| {
        d.read_dyn(number(0.0)).unwrap().get("det1_counts").unwrap().value.as_i64()
    };
    assert_eq!(counts(&d), Some(0));
    d.tick();
    d.tick();
    assert_eq!(counts(&d), Some(2));
    assert_eq!(d.hint_fields(), Some(vec!["det1_counts".to_string()]));
    assert_eq!(d.describe_dyn().unwrap().get("det1_counts").unwrap().dtype, Dtype::Integer);
}

#[test]
fn frames_are_told_of_once() {
    let mut control = SoftDetectorControl::new(Span { secs: 0, nanos: 0 });
    let mut w = SoftDetectorWriter::new("img");
    w.bump_index(&mut control);
    w.bump_index(&mut control);
    assert_eq!(w.indices_written(&control), 2);
    let docs = w.collect_stream_docs(2);
    assert_eq!(docs.len(), 2);
    let uid = match &docs[0] {
        StreamAsset::Resource(r) => {
            assert_eq!(r.data_key, "img_image");
            r.uid.clone()
        }
        d => panic!("{d:?}"),
    };
    match &docs[1] {
        StreamAsset::Datum(d) => {
            assert_eq!(d.stream_resource, uid);
            assert_eq!((d.indices.start, d.indices.stop), (0, 2));
            assert_eq!((d.seq_nums.start, d.seq_nums.stop), (1, 3));
        }
        d => panic!("{d:?}"),
    }
    assert!(w.collect_stream_docs(2).is_empty());
    let docs = w.collect_stream_docs(5);
    match &docs[..] {
        [StreamAsset::Datum(d)] => assert_eq!((d.indices.start, d.indices.stop), (2, 5)),
        d => panic!("{d:?}"),
    }
    assert!(open_writer(&w, 1).unwrap().contains_key("img_image"));
}

#[test]
fn a_standard_detector_triggers_and_flies() {
    let mut d = soft_detector("cam");
    d.stage_dyn().unwrap();
    assert!(d.trigger_dyn().success());
    assert_eq!(d.control().arm_count().load(Ordering::SeqCst), 1);
    assert_eq!(d.get_index(), Ok(1));
    assert!(d.kickoff_dyn().done_state());
    assert!(d.complete_dyn().done_state());
    let rows = d.collect_dyn().unwrap();
    assert_eq!(rows.len(), 1);
    let seen = d.control().arm_count().load(Ordering::SeqCst);
    assert!(d.collect_asset_docs(seen).is_empty());
    assert_eq!(d.collect_asset_docs(9).len(), 1);
    assert!(d.describe_collect_dyn().is_ok());
    assert!(d.read_dyn(number(0.0)).is_ok());
    assert_eq!(d.name(), "cam");
    d.unstage_dyn().unwrap();
}

#[test]
fn what_a_detector_reads_is_described() {
    let mut d = soft_detector("cam");
    let keys = d.describe_dyn().unwrap();
    assert!(keys.contains_key("cam_image"));
    let key = keys.get("cam_index").unwrap();
    assert_eq!(key.dtype, Dtype::Integer);
    assert!(key.shape.is_empty());
    assert!(d.read_dyn(number(0.0)).unwrap().contains_key("cam_index"));
    assert_eq!(d.hint_fields(), Some(vec!["cam_index".to_string()]));
    let row = &d.collect_dyn().unwrap()[0];
    let streams = d.describe_collect_dyn().unwrap();
    let keys = streams.get(row.stream.as_str()).unwrap();
    assert!(row.data.contains_key("cam_index") && keys.contains_key("cam_index"));
    assert!(keys.contains_key("cam_image"));
}

#[test]
fn controls_are_prepared() {
    let mut c = SoftDetectorControl::new(Span { secs: 0, nanos: 500 });
    c.prepare(TriggerInfo { number: 4 }).unwrap();
    assert_eq!(c.target().load(Ordering::SeqCst), 4);
    assert_eq!(c.deadtime(None), Span { secs: 0, nanos: 500 });
    assert!(c.arm().success());
    assert!(c.wait_for_idle().is_ok() && c.disarm().is_ok());
}

#[test]
fn counts_are_seen_as_they_change() {
    let mut c = SoftDetectorControl::new(Span { secs: 0, nanos: 0 });
    let mut w = SoftDetectorWriter::new("img");
    let (count, target) = (c.arm_count(), c.target());
    let seen = || (count.load(Ordering::SeqCst), target.load(Ordering::SeqCst));
    assert_eq!(seen(), (0, 1));
    assert!(c.arm().success());
    assert_eq!(seen(), (1, 1));
    w.bump_index(&mut c);
    assert_eq!(seen(), (2, 1));
    c.prepare(TriggerInfo { number: 7 }).unwrap();
    assert_eq!(seen(), (2, 7));
    assert!(Arc::ptr_eq(&count, &c.arm_count()));
    assert!(Arc::ptr_eq(&target, &c.target()));
}

#[test]
fn a_trigger_goes_on_as_its_arming_ended() {
    assert!(matches!(trigger_next(&Status::new()), TriggerNext::AwaitArming));
    assert!(matches!(trigger_next(&Status::done()), TriggerNext::AwaitIdle));
    let refused = StatusError::Failed("no power".into());
    match trigger_next(&Status::fail(refused.clone())) {
        TriggerNext::Fail(e) => assert_eq!(e, refused),
        n => panic!("{n:?}"),
    }
    let mut d = soft_detector("cam");
    assert!(d.armed(StatusOutcome::Success).success());
    let s = d.armed(StatusOutcome::Failed(refused.clone()));
    assert_eq!(s.exception(), Some(refused));
    assert_eq!(d.control().arm_count().load(Ordering::SeqCst), 0);
}

#[test]
fn flights_end_at_their_target() {
    assert!(still_flying(1, 3, true));
    assert!(!still_flying(3, 3, true));
    assert!(!still_flying(1, 3, false));
    assert!(idle_status(Ok(())).success());
    assert!(idle_status(Err(CirrusError::Backend("stuck".into()))).exception().is_some());
}

#[test]
fn pauses_are_counted() {
    let mut c = LuaPausableCounter::new("p1");
    c.pause_dyn().unwrap();
    c.pause_dyn().unwrap();
    c.resume_dyn().unwrap();
    let mut all = StrMap::new();
    all.insert("p1".into(), c);
    assert_eq!(pause_counts(&all, "p1"), (2, 1));
    assert_eq!(pause_counts(&all, "p2"), (0, 0));
}

#[test]
fn a_bound_writer_names_its_run() {
    let mut w = SoftDetectorWriter::new("img");
    w.bind_to_run("run-1");
    match &w.collect_stream_docs(0)[..] {
        [StreamAsset::Resource(r)] => assert_eq!(r.run_start.as_deref(), Some("run-1")),
        d => panic!("{d:?}"),
    }
    let mut free = SoftDetectorWriter::new("img");
    match &free.collect_stream_docs(0)[..] {
        [StreamAsset::Resource(r)] => assert_eq!(r.run_start, None),
        d => panic!("{d:?}"),
    }
}

#[test]
fn what_is_put_is_read() {
    let mut s = Signal::new(SoftSignalBackend::new(1i64, Dtype::Integer), config("s", Kind::Normal));
    assert!(s.put(41).0.success());
    assert_eq!(s.get(), Ok(41));
    assert_eq!(s.get_setpoint(), Ok(41));
    let r = s.read(number(2.0)).unwrap();
    assert_eq!(r.get("s").unwrap().value.as_i64(), Some(41));
    assert_eq!(r.get("s").unwrap().timestamp, number(2.0));
}
