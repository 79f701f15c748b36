//! Channel Access values, channels and the backend around them.

use cirrus::ca::{
    bool_to_wire, epics_to_bool, epics_to_f64, epics_to_i64, epics_to_string, f64_to_wire,
    i64_to_wire, string_to_epics, CaContext, CaStringKind, CaType, ChannelStep, DoubleForms,
    EpicsCaBackend, FieldType, IntForms, Number, Single, WireValue,
};
use cirrus::documents::Dtype;
use cirrus::error::{CirrusError, Span};
use cirrus::signal::{default_backend, BackendFromPv};
use cirrus::value::Double;
use epics_ca_rs::EpicsValue;

fn double_forms(v: f64) -> DoubleForms {
    DoubleForms {
        double: Double { bits: v.to_bits() },
        float: Single { bits: (v as f32).to_bits() },
        int64: v as i64,
        long: v as i32,
        short: v as i16,
        char: v as u8,
        choice: v as u16,
        text: format!("{v}"),
    }
}

fn int_forms(v: i64) -> IntForms {
    IntForms {
        int: v,
        double: Double { bits: (v as f64).to_bits() },
        float: Single { bits: (v as f32).to_bits() },
    }
}

fn to_epics(w: &WireValue) -> EpicsValue {
    match w {
        WireValue::Text(s) => EpicsValue::String(s.as_str().into()),
        WireValue::Short(v) => EpicsValue::Short(*v),
        WireValue::Float(v) => EpicsValue::Float(f32::from_bits(v.bits)),
        WireValue::Enum(v) => EpicsValue::Enum(*v),
        WireValue::Char(v) => EpicsValue::Char(*v),
        WireValue::Long(v) => EpicsValue::Long(*v),
        WireValue::Double(v) => EpicsValue::Double(f64::from_bits(v.bits)),
        WireValue::Int64(v) => EpicsValue::Int64(*v),
        WireValue::CharArray(b) => EpicsValue::CharArray(b.clone()),
        WireValue::Other => panic!("no wire form"),
    }
}

fn bytes_of(w: &WireValue) -> usize {
    let n = to_epics(w).to_bytes().len();
    assert_eq!(w.wire_len(), Some(n));
    n
}

#[test]
fn long_string_round_trips_via_char_array() {
    let path = "/data/scan42/run0001.h5";
    let v = string_to_epics(path, CaStringKind::Long);
    match &v {
        WireValue::CharArray(bytes) => {
            assert_eq!(*bytes.last().unwrap(), 0);
            assert_eq!(&bytes[..path.len()], path.as_bytes());
        }
        _ => panic!("expected CharArray, got {v:?}"),
    }
    let back = epics_to_string(&v, CaStringKind::Long).expect("CharArray decodes as Long string");
    assert_eq!(back, path);
}

#[test]
fn short_string_round_trips_via_dbr_string() {
    let v = string_to_epics("13SIM1", CaStringKind::Short);
    match &v {
        WireValue::Text(s) => assert_eq!(s, "13SIM1"),
        _ => panic!("expected Text, got {v:?}"),
    }
    let back = epics_to_string(&v, CaStringKind::Short).unwrap();
    assert_eq!(back, "13SIM1");
}

#[test]
fn long_string_decode_strips_at_first_nul() {
    let bytes = b"/data/scan\0/tail/ignored".to_vec();
    let s = epics_to_string(&WireValue::CharArray(bytes), CaStringKind::Long).expect("CharArray");
    assert_eq!(s, "/data/scan");
}

#[test]
fn long_string_constructor_flips_kind() {
    let long = EpicsCaBackend::new_long_string("foo:FilePath");
    assert_eq!(long.kind, CaType::Text(CaStringKind::Long));
    let short = EpicsCaBackend::new_string("bar:Port");
    assert_eq!(short.kind, CaType::Text(CaStringKind::Short));
}

#[test]
fn native_type_encoding_matches_wire_widths() {
    let cases: &[(FieldType, usize)] = &[
        (FieldType::Double, 8),
        (FieldType::Float, 4),
        (FieldType::Int64, 8),
        (FieldType::Long, 4),
        (FieldType::Short, 2),
        (FieldType::Enum, 2),
        (FieldType::Char, 1),
    ];
    for (t, want) in cases {
        assert_eq!(bytes_of(&i64_to_wire(*t, int_forms(1))), *want, "i64_to_wire {t:?}");
        assert_eq!(bytes_of(&f64_to_wire(*t, double_forms(1.0))), *want, "f64_to_wire {t:?}");
        assert_eq!(bytes_of(&bool_to_wire(*t, true)), *want, "bool_to_wire {t:?}");
    }
    assert_eq!(bytes_of(&i64_to_wire(FieldType::String, int_forms(5))), 40);
}

#[test]
fn bool_decodes_from_numeric_variants() {
    assert_eq!(epics_to_bool(&WireValue::Long(0)), Some(false));
    assert_eq!(epics_to_bool(&WireValue::Long(1)), Some(true));
    assert_eq!(epics_to_bool(&WireValue::Enum(1)), Some(true));
    assert_eq!(epics_to_bool(&WireValue::Char(0)), Some(false));
    assert_eq!(epics_to_bool(&WireValue::Text("x".into())), None);
}

#[test]
fn bool_goes_by_the_whole_part() {
    let cases: &[(f64, bool)] = &[
        (0.0, false),
        (-0.0, false),
        (0.999, false),
        (-0.5, false),
        (1.0, true),
        (-1.0, true),
        (1e300, true),
        (f64::INFINITY, true),
        (f64::NAN, false),
    ];
    for (x, want) in cases {
        let w = WireValue::Double(Double { bits: x.to_bits() });
        assert_eq!(epics_to_bool(&w), Some(*want), "{x}");
        assert_eq!((*x as i64) != 0, *want);
        let f = *x as f32;
        let w = WireValue::Float(Single { bits: f.to_bits() });
        assert_eq!(epics_to_bool(&w), Some((f as i64) != 0), "{x} single");
    }
}

#[test]
fn integers_are_cut_to_the_width_of_the_channel() {
    assert_eq!(i64_to_wire(FieldType::Long, int_forms(1 << 32)), WireValue::Long(0));
    assert_eq!(i64_to_wire(FieldType::Short, int_forms(65537)), WireValue::Short(1));
    assert_eq!(i64_to_wire(FieldType::Char, int_forms(-1)), WireValue::Char(255));
    assert_eq!(i64_to_wire(FieldType::Enum, int_forms(-1)), WireValue::Enum(65535));
    assert_eq!(i64_to_wire(FieldType::Int64, int_forms(-7)), WireValue::Int64(-7));
    assert_eq!(i64_to_wire(FieldType::String, int_forms(-42)), WireValue::Text("-42".into()));
    assert_eq!(bool_to_wire(FieldType::String, true), WireValue::Text("1".into()));
    assert_eq!(
        bool_to_wire(FieldType::Double, true),
        WireValue::Double(Double { bits: 1.0f64.to_bits() })
    );
    assert_eq!(
        bool_to_wire(FieldType::Float, true),
        WireValue::Float(Single { bits: 1.0f32.to_bits() })
    );
}

#[test]
fn numbers_are_read_from_every_scalar() {
    assert_eq!(epics_to_f64(&WireValue::Short(-3)), Some(Number::Integer(-3)));
    assert_eq!(epics_to_i64(&WireValue::Enum(65535)), Some(Number::Integer(65535)));
    let d = Double { bits: 2.5f64.to_bits() };
    assert_eq!(epics_to_f64(&WireValue::Double(d)), Some(Number::Double(d)));
    assert_eq!(epics_to_f64(&WireValue::CharArray(vec![1])), None);
    assert_eq!(epics_to_i64(&WireValue::Other), None);
}

#[test]
fn invalid_bytes_are_replaced() {
    let w = WireValue::CharArray(vec![b'a', 0xff, b'b', 0]);
    assert_eq!(epics_to_string(&w, CaStringKind::Short), Some("a\u{fffd}b".to_string()));
    assert_eq!(epics_to_string(&WireValue::Long(3), CaStringKind::Long), None);
}

#[test]
fn one_opening_at_a_time() {
    let mut ctx = CaContext::new();
    assert_eq!(ctx.get_or_open("A:1"), ChannelStep::Open);
    assert_eq!(ctx.get_or_open("A:1"), ChannelStep::Wait);
    assert_eq!(ctx.get_or_open("B:1"), ChannelStep::Open);
    assert_eq!(ctx.opened("A:1", Ok(17)), Ok(17));
    assert_eq!(ctx.get_or_open("A:1"), ChannelStep::Ready(17));
    assert_eq!(ctx.waited("A:1"), Ok(17));
    assert!(ctx.opened("B:1", Err("no answer".into())).is_err());
    assert!(ctx.waited("B:1").is_err());
    assert_eq!(ctx.get_or_open("B:1"), ChannelStep::Open);
}

#[test]
fn backend_speaks_of_its_channel() {
    let b: EpicsCaBackend = default_backend("S:m1");
    assert_eq!(b.pv, "S:m1");
    assert_eq!(EpicsCaBackend::from_pv("S:m1").kind, CaType::Number);
    assert_eq!(b.source("S:m1"), "ca://S:m1");
    let key = b.get_datakey("ca://S:m1", 1);
    assert_eq!(key.dtype, Dtype::Number);
    assert!(key.shape.is_empty());
    assert_eq!(EpicsCaBackend::wait_limit(Some(Span { secs: 2, nanos: 0 })).secs, 2);
    assert!(EpicsCaBackend::put_status(Ok(())).success());
    assert!(EpicsCaBackend::put_status(Err("gone".into())).exception().is_some());
    match EpicsCaBackend::number_value(&WireValue::Other, "Other") {
        Err(CirrusError::Backend(m)) | Err(CirrusError::InvalidValue(m)) => {
            assert!(m.contains("Other"), "{m}")
        }
        r => panic!("{r:?}"),
    }
    assert_eq!(
        EpicsCaBackend::text_value(&WireValue::Text("on".into()), CaStringKind::Short, ""),
        Ok("on".to_string())
    );
    assert_eq!(EpicsCaBackend::bool_value(&WireValue::Char(2), ""), Ok(true));
    assert_eq!(EpicsCaBackend::int_value(&WireValue::Long(-9), ""), Ok(Number::Integer(-9)));
}
