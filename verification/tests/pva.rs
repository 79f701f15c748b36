//! PV Access values and the monitor around them.

use cirrus::ca::{Number, Single};
use cirrus::pva::{pv_field_to_f64, pv_field_to_ts, EpicsPvaBackend, PvField, PvaMonitor, ScalarValue};
use cirrus::value::Double;

fn double(v: f64) -> Double {
    Double { bits: v.to_bits() }
}

fn number(n: Number) -> f64 {
    match n {
        Number::Integer(i) => i as f64,
        Number::Unsigned(u) => u as f64,
        Number::Float(f) => f32::from_bits(f.bits) as f64,
        Number::Double(d) => f64::from_bits(d.bits),
    }
}

fn ntscalar_with_ts(value: f64, secs: i64, nanos: i32) -> PvField {
    let ts = vec![
        ("secondsPastEpoch".to_string(), PvField::Scalar(ScalarValue::Long(secs))),
        ("nanoseconds".to_string(), PvField::Scalar(ScalarValue::Int(nanos))),
    ];
    PvField::Structure(vec![
        ("value".to_string(), PvField::Scalar(ScalarValue::Double(double(value)))),
        ("timeStamp".to_string(), PvField::Structure(ts)),
    ])
}

#[test]
fn timestamp_extracted_from_ntscalar() {
    let f = ntscalar_with_ts(42.0, 1_700_000_000, 250_000_000);
    let t = pv_field_to_ts(&f).expect("ntscalar timestamp");
    let ts = number(t.secs) + t.nanos as f64 * 1e-9;
    assert!((ts - 1_700_000_000.25).abs() < 1e-6);
    let v = number(pv_field_to_f64(&f).expect("ntscalar value"));
    assert_eq!(v, 42.0);
}

#[test]
fn timestamp_none_for_bare_scalar() {
    let bare = PvField::Scalar(ScalarValue::Double(double(3.14)));
    assert!(pv_field_to_ts(&bare).is_none());
    assert_eq!(pv_field_to_f64(&bare).map(number), Some(3.14));
}

#[test]
fn timestamp_none_when_substructure_missing_seconds() {
    let ts = vec![("nanoseconds".to_string(), PvField::Scalar(ScalarValue::Int(0)))];
    let f = PvField::Structure(vec![
        ("value".to_string(), PvField::Scalar(ScalarValue::Double(double(1.0)))),
        ("timeStamp".to_string(), PvField::Structure(ts)),
    ]);
    assert!(pv_field_to_ts(&f).is_none());
}

#[test]
fn a_time_takes_seconds_and_nanoseconds() {
    let ts = vec![("secondsPastEpoch".to_string(), PvField::Scalar(ScalarValue::Long(5)))];
    let f = PvField::Structure(vec![("timeStamp".to_string(), PvField::Structure(ts))]);
    assert!(pv_field_to_ts(&f).is_none());
    let ts = vec![
        ("secondsPastEpoch".to_string(), PvField::Scalar(ScalarValue::ULong(5))),
        ("nanoseconds".to_string(), PvField::Scalar(ScalarValue::UInt(7))),
    ];
    let f = PvField::Structure(vec![("timeStamp".to_string(), PvField::Structure(ts))]);
    let t = pv_field_to_ts(&f).unwrap();
    assert_eq!(number(t.secs), 5.0);
    assert_eq!(t.nanos, 7);
}

#[test]
fn every_scalar_number_is_read() {
    let cases: Vec<(ScalarValue, f64)> = vec![
        (ScalarValue::Byte(-1), -1.0),
        (ScalarValue::Short(-300), -300.0),
        (ScalarValue::Int(70000), 70000.0),
        (ScalarValue::Long(-5), -5.0),
        (ScalarValue::UByte(255), 255.0),
        (ScalarValue::UShort(65535), 65535.0),
        (ScalarValue::UInt(4000000000), 4e9),
        (ScalarValue::ULong(u64::MAX), u64::MAX as f64),
        (ScalarValue::Float(Single { bits: 0.5f32.to_bits() }), 0.5),
    ];
    for (s, want) in cases {
        assert_eq!(pv_field_to_f64(&PvField::Scalar(s)).map(number), Some(want), "{s:?}");
    }
    assert!(pv_field_to_f64(&PvField::Scalar(ScalarValue::Text)).is_none());
    assert!(pv_field_to_f64(&PvField::Other).is_none());
    assert!(pv_field_to_f64(&PvField::Structure(vec![])).is_none());
}

#[test]
fn a_missing_timestamp_is_warned_of_once() {
    let mut m = PvaMonitor::new();
    let bare = PvField::Scalar(ScalarValue::Int(4));
    let first = m.frame(&bare).expect("a number");
    assert!(first.warn && first.time.is_none());
    let second = m.frame(&bare).expect("a number");
    assert!(!second.warn);
    let stamped = m.frame(&ntscalar_with_ts(1.0, 10, 0)).expect("a number");
    assert!(!stamped.warn && stamped.time.is_some());
    assert!(m.frame(&PvField::Other).is_none());
}

#[test]
fn pva_backend_speaks_of_its_channel() {
    let b = EpicsPvaBackend::new("mini:current");
    assert_eq!(b.pv, "mini:current");
    assert_eq!(b.source("mini:current"), "pva://mini:current");
    assert_eq!(b.connected(Ok(())), Ok(()));
    assert!(b.connected(Err("timeout".into())).is_err());
    assert!(EpicsPvaBackend::put_status(Ok(())).success());
    assert!(EpicsPvaBackend::number_value(&PvField::Other, "Null").is_err());
    assert!(b.get_datakey("pva://mini:current").shape.is_empty());
}
