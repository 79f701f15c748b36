//! What the device derive and the method derive make of their input.

use cirrus::derive::{
    arg_complaint, check_arity, connected_fields, derive_device, field_init, is_result_type,
    lua_methods, parse_kind, parse_string_attr, strip_arc, type_complaint, Attr, DeviceInput,
    FieldInit, FieldInput, FieldTy, ImplItem, Output, Receiver, Returned,
};
use cirrus::device::NamedObj;
use cirrus::error::Span;
use cirrus::kind::Kind;
use cirrus::signal::{expand, Signal, SignalConfig};
use cirrus::documents::Dtype;
use cirrus::soft::SoftSignalBackend;
use cirrus::value::Double;

fn ty(text: &str, last: &str, first: Option<&str>) -> FieldTy {
    FieldTy {
        text: text.into(),
        last: Some(last.into()),
        first_arg: first.map(|s| s.to_string()),
    }
}

fn field(id: &str, attr: Option<(&str, &str)>, t: FieldTy) -> FieldInput {
    FieldInput {
        id: id.into(),
        attrs: attr
            .map(|(name, args)| vec![Attr { name: name.into(), args: Some(args.into()) }])
            .unwrap_or_default(),
        ty: t,
    }
}

fn motor() -> DeviceInput {
    let s = || ty("Signal < f64 , SoftSignalBackend < f64 > >", "Signal", Some("f64"));
    DeviceInput::Named(vec![
        field("name", None, ty("String", "String", None)),
        field("setpoint", Some(("signal", "rw , \"{prefix}.VAL\"")), s()),
        field("readback", Some(("signal", "ro , \"{prefix}.RBV\" , kind = hinted")), s()),
        field("velocity", Some(("signal", "rw , \"{prefix}.VELO\" , kind = config")), s()),
    ])
}

#[test]
fn motor_derive_builds_and_connects() {
    let inits = derive_device(&motor()).unwrap();
    assert_eq!(inits.len(), 4);
    assert!(matches!(inits[0], FieldInit::Name));
    let mut seen = Vec::new();
    for init in &inits[1..] {
        match init {
            FieldInit::Signal { id, template, kind } => {
                let source = expand(template, "BL10C:m1");
                let backend = SoftSignalBackend::new(Double { bits: 0 }, Dtype::Number);
                let config =
                    SignalConfig { source: source.clone(), kind: *kind, name: source.clone() };
                let mut signal = Signal::<Double, SoftSignalBackend<Double>>::new(backend, config);
                signal.connect(Span { secs: 0, nanos: 100_000_000 }).unwrap();
                assert_eq!(signal.name(), source);
                seen.push((id.as_str(), source, signal.kind()));
            }
            other => panic!("{other:?}"),
        }
    }
    assert_eq!(seen[0], ("setpoint", "BL10C:m1.VAL".to_string(), Kind::Normal));
    assert_eq!(seen[1], ("readback", "BL10C:m1.RBV".to_string(), Kind::Hinted));
    assert_eq!(seen[2], ("velocity", "BL10C:m1.VELO".to_string(), Kind::Config));
    assert_eq!(connected_fields(&inits), vec![1, 2, 3]);
}

#[test]
fn nested_device_propagates_prefix() {
    let arc = || ty("std :: sync :: Arc < Motor >", "Arc", Some("Motor"));
    let inits = derive_device(&DeviceInput::Named(vec![
        field("name", None, ty("String", "String", None)),
        field("x", Some(("device", "\"{prefix}:x\"")), arc()),
        field("y", Some(("device", "\"{prefix}:y\"")), arc()),
    ]))
    .unwrap();
    let names: Vec<String> = inits[1..]
        .iter()
        .map(|i| match i {
            FieldInit::Device { template, ty, .. } => {
                assert_eq!(ty, "Motor");
                expand(template, "BL10C")
            }
            other => panic!("{other:?}"),
        })
        .collect();
    assert_eq!(names, vec!["BL10C:x", "BL10C:y"]);
    assert_eq!(connected_fields(&inits), vec![1, 2]);
}

#[test]
fn only_structs_with_named_fields_are_devices() {
    assert!(derive_device(&DeviceInput::OtherStruct).is_err());
    assert!(derive_device(&DeviceInput::NotStruct).is_err());
}

#[test]
fn other_fields_take_their_default() {
    let f = field("count", None, ty("u64", "u64", None));
    assert!(matches!(field_init(&f), FieldInit::Default { id } if id == "count"));
    assert_eq!(parse_string_attr(&f, "signal"), None);
    assert_eq!(parse_kind(&f), Kind::Normal);
    assert_eq!(strip_arc(&ty("Arc < Motor >", "Arc", Some("Motor"))), "Motor");
    assert_eq!(strip_arc(&ty("Motor", "Motor", None)), "Motor");
}

fn method(name: &str, exposed: bool, receiver: Receiver, args: &[&str], output: Output) -> ImplItem {
    ImplItem::Method {
        name: name.into(),
        exposed,
        receiver,
        args: args.iter().map(|s| s.to_string()).collect(),
        is_async: false,
        output,
    }
}

#[test]
fn exposed_methods_are_listed() {
    let items = vec![
        method(
            "set_orientation",
            true,
            Receiver::Shared,
            &["f64", "f64", "f64"],
            Output::Type(Some("Result".into())),
        ),
        method("current_hkl", true, Receiver::Shared, &[], Output::Type(None)),
        method("label", true, Receiver::Shared, &[], Output::Type(Some("String".into()))),
        method("helper", false, Receiver::Missing, &[], Output::Unit),
        ImplItem::Other,
    ];
    let found = lua_methods(false, &items).unwrap();
    assert_eq!(found.len(), 3);
    assert_eq!(found[0].name, "set_orientation");
    assert_eq!(found[0].args.len(), 3);
    assert_eq!(found[0].returned, Returned::OfResult);
    assert_eq!(found[1].returned, Returned::Value);
    assert!(lua_methods(true, &items).is_err());
    let bad = vec![method("eat", true, Receiver::Value, &[], Output::Unit)];
    assert!(lua_methods(false, &bad).is_err());
    assert!(is_result_type(&Some("Result".into())));
    assert!(!is_result_type(&Some("Option".into())));
}

#[test]
fn calls_with_wrong_arguments_are_refused() {
    assert!(check_arity("set_orientation", 3, 3).is_ok());
    let e = check_arity("set_orientation", 3, 1).unwrap_err();
    assert!(e.contains("set_orientation") && e.contains('3') && e.contains('1'), "{e}");
    assert!(arg_complaint("m", 2, "bad").contains("bad"));
    assert!(type_complaint("Motor").contains("Motor"));
}
