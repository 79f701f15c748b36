//! Scripts: values, devices, messages, plans and subscribers.

use cirrus::device::DynLocation;
use cirrus::documents::{DataKey, Dtype};
use cirrus::error::{CirrusError, Span};
use cirrus::lua_bp::{bp_plan, ramp_plan, rel_scan_asks, BpCall, SpiralForm};
use cirrus::lua_bpp::{
    bpp_plan, finalize_plan, nested_f64_to_lua_table, pairs_to_lua_table, pchain_plan, BppCall,
};
use cirrus::lua_bps::{
    bps_plan, global_plan, plan_function, repeater_next, split_trig_read, BpsCall, GlobalCall,
    RepeaterNext,
};
use cirrus::lua_bridge::{
    callback_error, json_md_to_lua_table, mutated_msg, payload_text, Delivery, LuaSubscriber,
    LuaSubscribers, Payload,
};
use cirrus::lua_device::{
    describe_reply, device_call, located, moved, read_reply, DeviceMethod, DeviceOp, LuaDevice,
    LuaStatus, Role,
};
use cirrus::lua_engine::{run_options, run_with_options};
use cirrus::lua_msg::{
    factory_outcome, lua_table_to_data_key, lua_table_to_metadata, publish_required_fields,
    AutoGroups, KeyTable, MetaTable, PublishKind,
};
use cirrus::lua_plan::{
    devs_of, number_label, AxisTable, GridAxis, LuaPlan, LuaPlanKind, PlanArg, PlanFn,
};
use cirrus::lua_value::{
    json_to_lua, lua_value_repr, lua_value_to_json, print_line, LuaNumber, LuaOut, LuaVal,
};
use cirrus::msg::{Msg, ObjRef};
use cirrus::status::{Status, StatusError, StatusOutcome};
use cirrus::strmap::StrMap;
use cirrus::value::{Double, Json};

fn number(v: f64) -> Double {
    Double { bits: v.to_bits() }
}

fn obj(id: u64, name: &str) -> ObjRef {
    ObjRef { id, name: name.into() }
}

fn motor(name: &str) -> LuaDevice {
    LuaDevice::motor(name, obj(1, name))
}

fn det(name: &str) -> LuaDevice {
    LuaDevice::detector(name, obj(2, name))
}

fn text(s: &str) -> LuaVal {
    LuaVal::Str(s.into())
}

#[test]
fn tables_become_arrays_or_objects() {
    let t = LuaVal::Table {
        items: vec![LuaVal::Integer(1), text("b")],
        pairs: vec![
            (LuaVal::Integer(1), LuaVal::Integer(1)),
            (LuaVal::Integer(2), text("b")),
            (text("lost"), LuaVal::Nil),
        ],
    };
    assert!(matches!(lua_value_to_json(&t), Ok(Json::Array(a)) if a.len() == 2));
    let t = LuaVal::Table {
        items: vec![],
        pairs: vec![
            (text("a"), LuaVal::Boolean(true)),
            (LuaVal::Boolean(true), text("dropped")),
            (text("a"), LuaVal::Integer(2)),
        ],
    };
    match lua_value_to_json(&t) {
        Ok(Json::Object(m)) => {
            assert_eq!(m.len(), 1);
            assert!(matches!(m[0].1, Json::Int(2)));
        }
        j => panic!("{j:?}"),
    }
    let inf = LuaVal::Number(LuaNumber {
        value: number(f64::INFINITY),
        shown: "inf".into(),
        as_key: "inf".into(),
    });
    assert!(matches!(lua_value_to_json(&inf), Ok(Json::Null)));
    assert_eq!(lua_value_to_json(&LuaVal::Bytes("bad".into())).unwrap_err(), "bad");
}

#[test]
fn values_are_printed() {
    let t = LuaVal::Table { items: vec![], pairs: vec![(text("a"), LuaVal::Integer(-4))] };
    assert_eq!(lua_value_repr(&t), "{a=-4}");
    assert_eq!(lua_value_repr(&LuaVal::UserData("x".into())), "<userdata>");
    assert_eq!(print_line(&vec![LuaVal::Nil, LuaVal::Boolean(true), text("x")]), "nil true x");
}

#[test]
fn json_reaches_scripts() {
    assert!(matches!(json_to_lua(&Json::Null), LuaOut::Nil));
    assert!(matches!(json_to_lua(&Json::UInt(3)), LuaOut::Integer(3)));
    let o = Json::Object(vec![("k".into(), Json::Array(vec![Json::Bool(true)]))]);
    assert!(format!("{:?}", json_to_lua(&o)).contains("Boolean(true)"));
    let mut md = StrMap::new();
    md.insert("a".into(), Json::Str("x".into()));
    assert!(format!("{:?}", json_md_to_lua_table(&md)).contains("\"x\""));
}

#[test]
fn device_method_role_mismatch_errors_clearly() {
    let e = device_call(&det("d1"), &DeviceMethod::Send(number(1.0), "1".into())).unwrap_err();
    assert!(e.contains("not movable"), "{e}");
    assert_eq!(det("d1").need(Role::Stageable).unwrap_err(), "d1 is not stageable");
}

#[test]
fn device_method_bluesky_style_short_names() {
    let m = motor("m1");
    let at = DynLocation { setpoint: number(0.5), readback: number(0.75) };
    let (o, op) = device_call(&m, &DeviceMethod::Position).unwrap();
    assert_eq!(o, obj(1, "m1"));
    assert!(matches!(op, DeviceOp::Locate));
    let v = located(&DeviceMethod::Position, Ok(at)).unwrap();
    assert!(matches!(v, LuaOut::Number(x) if x == number(0.75)));
    let v = located(&DeviceMethod::Target, Ok(at)).unwrap();
    assert!(matches!(v, LuaOut::Number(x) if x == number(0.5)));
    assert!(matches!(located(&DeviceMethod::Locate, Ok(at)), Ok(LuaOut::Fields(f)) if f.len() == 2));
    let (_, op) = device_call(&m, &DeviceMethod::Send(number(2.0), "2".into())).unwrap();
    assert!(matches!(op, DeviceOp::Send(_, label) if label == "set(m1=2)"));
    assert!(moved(Ok(())).is_ok());
    assert_eq!(
        moved(Err(StatusError::Failed("x".into()))).unwrap_err(),
        "move_to: Failed(\"x\")"
    );
    assert!(matches!(read_reply(Ok(StrMap::new())), Ok(LuaOut::Fields(f)) if f.is_empty()));
    let mut keys = StrMap::new();
    keys.insert("k".into(), DataKey::plain("s".into(), Dtype::Integer, vec![]));
    assert!(format!("{:?}", describe_reply(Ok(keys))).contains("Integer"));
    assert_eq!(
        DeviceMethod::Stop.failed(&CirrusError::Backend("jam".into())),
        "stop: jam"
    );
}

#[test]
fn device_status_wait_is_idempotent() {
    let s = LuaStatus::new(Status::done(), "set(m1=1)".into());
    assert_eq!(s.wait(), Some(Ok(())));
    assert_eq!(s.wait(), Some(Ok(())));
    assert!(s.done());
    assert_eq!(s.success(), Some(true));
    assert_eq!(s.exception(), None);
}

#[test]
fn status_inspect_done_success_exception() {
    let mut s = LuaStatus::new(Status::new(), "set(m1=1.5)".into());
    assert_eq!(s.wait(), None);
    assert_eq!(s.success(), None);
    s.complete(StatusOutcome::Success);
    let LuaOut::Fields(snap) = s.inspect() else { panic!("no table") };
    let field = |k: &str| snap.iter().find(|(n, _)| n == k).map(|(_, v)| format!("{v:?}"));
    assert_eq!(field("done").as_deref(), Some("Boolean(true)"));
    assert_eq!(field("success").as_deref(), Some("Boolean(true)"));
    assert_eq!(field("exception").as_deref(), Some("Nil"));
    assert_eq!(field("label").as_deref(), Some("Str(\"set(m1=1.5)\")"));
    let mut f = LuaStatus::new(Status::new(), "x".into());
    f.complete(StatusOutcome::Failed(StatusError::Timeout));
    assert_eq!(f.exception().as_deref(), Some("timed out"));
    assert!(f.wait().unwrap().is_err());
    assert!(f.shown().starts_with("Status(x, done=true"));
}

#[test]
fn devices_show_their_roles() {
    assert!(motor("m1").shown().starts_with("Device(m1, ["));
    assert_eq!(LuaDevice::bare("b").shown(), "Device(b, [])");
    assert!(LuaDevice::bare("b").teller().is_none());
    assert!(format!("{:?}", LuaDevice::bare("b").untold()).contains("Unknown"));
    assert!(motor("m").plays(Role::Locatable).is_some());
}

#[test]
fn groups_get_fresh_names() {
    let mut g = AutoGroups::new();
    let (a, b) = (g.auto_group(), g.auto_group());
    assert_ne!(a, b);
    assert!(a.starts_with("auto-") && b.starts_with("auto-"));
}

#[test]
fn metadata_is_taken_from_tables() {
    let m = lua_table_to_metadata(Some(MetaTable {
        plan_name: Some("p".into()),
        scan_id: Some(4),
        pairs: vec![(text("plan_name"), text("p")), (text("extra"), LuaVal::Integer(1))],
    }))
    .unwrap();
    assert_eq!(m.plan_name.as_deref(), Some("p"));
    assert_eq!(m.scan_id, Some(4));
    assert!(m.extra.contains_key("extra"));
    assert!(lua_table_to_metadata(None).unwrap().plan_name.is_none());
    let key = KeyTable {
        source: Some("s".into()),
        dtype: Some("integer".into()),
        shape: Some(vec![2, 3]),
        dtype_numpy: None,
        units: Some("mm".into()),
        precision: None,
        object_name: None,
    };
    let k = lua_table_to_data_key(key).unwrap();
    assert_eq!(k.dtype, Dtype::Integer);
    assert_eq!(k.shape, vec![Some(2), Some(3)]);
    assert!(factory_outcome(Ok(None)).is_ok());
    assert!(factory_outcome(Ok(Some("no".into()))).is_err());
    assert!(factory_outcome(Err("raised".into())).is_err());
    let (kind, fields) = publish_required_fields("datum").unwrap();
    assert_eq!(kind, PublishKind::Datum);
    assert_eq!(fields, vec!["datum_id", "resource"]);
}

#[test]
fn bp_namespace_all_compound_plans_run() {
    let plan = |c: BpCall| bp_plan(c).unwrap();
    let p = plan(BpCall::Count { dets: vec![det("d1")], num: 2 });
    assert_eq!((p.function, p.label.as_str()), (PlanFn::Count, "count(n=2)"));
    let scan = |log: bool| BpCall::Scan {
        log,
        dets: vec![det("d1")],
        motor: motor("m1"),
        start: number(0.0),
        stop: number(1.0),
        num: 3,
    };
    assert_eq!(plan(scan(false)).function, PlanFn::Scan);
    assert_eq!(plan(scan(true)).function, PlanFn::LogScan);
    let p = plan(BpCall::ListScan {
        dets: vec![det("d1")],
        motor: motor("m1"),
        points: vec![number(0.0), number(0.5), number(1.0)],
    });
    assert_eq!((p.function, p.label.as_str()), (PlanFn::ListScan, "list_scan"));
    let p = plan(BpCall::RelScan {
        dets: vec![det("d1")],
        motor: motor("m1"),
        found: Ok(DynLocation { setpoint: number(1.0), readback: number(1.0) }),
        start: number(-0.1),
        stop: number(0.1),
        num: 3,
    });
    assert_eq!(p.function, PlanFn::RelScan);
    assert_eq!(rel_scan_asks(&motor("m1")).unwrap(), obj(1, "m1"));
    let axis = |n: &str| GridAxis {
        motor: LuaDevice::motor(n, obj(3, n)),
        start: number(0.0),
        stop: number(0.2),
        num: 2,
    };
    let p = plan(BpCall::GridScan {
        relative: false,
        dets: vec![det("d1")],
        outer: axis("m1"),
        inner: axis("m2"),
    });
    assert_eq!((p.function, p.label.as_str()), (PlanFn::GridScan, "grid_scan"));
    let p = plan(BpCall::InnerProductScan {
        dets: vec![det("d1")],
        num: 3,
        axes: vec![AxisTable { motor: motor("m1"), at: vec![number(0.0), number(1.0)] }],
    });
    assert_eq!(p.function, PlanFn::InnerProductScan);
    let p = plan(BpCall::Spiral {
        dets: vec![det("d1")],
        x: motor("m1"),
        y: motor("m2"),
        form: SpiralForm::Square { frame: [number(0.4); 4], x_num: 3, y_num: 3 },
    });
    assert_eq!((p.function, p.label.as_str()), (PlanFn::SpiralSquare, "spiral_square"));
    assert!(bp_plan(BpCall::Fly).unwrap_err().contains("not yet wired"));
    let e = bp_plan(BpCall::Count { dets: vec![LuaDevice::bare("x")], num: 1 }).unwrap_err();
    assert!(e.contains("x is not readable"), "{e}");
    let mut go = LuaPlan::wrap_prebuilt("mv".into(), 8);
    let p = ramp_plan(&mut go, &vec![det("d")], Span { secs: 1, nanos: 0 }, 5).unwrap();
    assert_eq!(p.label, "ramp_plan(n=5)");
    assert!(go.kind.is_none());
}

#[test]
fn a_repeater_makes_one_plan_per_number() {
    let (mut asked, mut plans) = (Vec::new(), Vec::new());
    while let RepeaterNext::Make(i) = repeater_next(3, &plans) {
        asked.push(i);
        plans.push(i + 10);
    }
    assert_eq!(asked, vec![0, 1, 2]);
    let p = bps_plan(BpsCall::Repeater(plans)).unwrap();
    assert_eq!(p.function, PlanFn::Pchain);
    assert_eq!(p.label, "repeater(n=3)");
    assert!(matches!(&p.args[0], PlanArg::Plans(made) if *made == vec![10, 11, 12]));
    assert_eq!(repeater_next(0, &vec![]), RepeaterNext::Chain);
    let p = bps_plan(BpsCall::Repeater(vec![])).unwrap();
    assert_eq!(p.label, "repeater(n=0)");
}

#[test]
fn bps_namespace_stub_plans() {
    assert_eq!(bps_plan(BpsCall::Null).unwrap().function, PlanFn::Null);
    let p = bps_plan(BpsCall::Mv(motor("m1"), number(0.5))).unwrap();
    assert_eq!(p.function, PlanFn::Mv);
    assert_eq!(p.label, "mv");
    let p = bps_plan(BpsCall::Create(None)).unwrap();
    assert!(matches!(&p.args[0], PlanArg::Text(t) if t == "primary"));
    let p = bps_plan(BpsCall::Repeater(vec![1, 2, 3])).unwrap();
    assert_eq!(p.label, "repeater(n=3)");
    assert!(bps_plan(BpsCall::Mv(det("d1"), number(0.5))).unwrap_err().contains("not movable"));
    assert_eq!(split_trig_read(&vec![det("a")]).unwrap_err(), "a is not triggerable");
    let both = LuaDevice { triggerable: Some(obj(2, "a")), ..det("a") };
    let (t, r) = split_trig_read(&vec![both]).unwrap();
    assert_eq!((t, r), (vec![obj(2, "a")], vec![obj(2, "a")]));
    let p = global_plan(GlobalCall::Sleep(Span { secs: 0, nanos: 10_000_000 }, "0.01".into()));
    assert_eq!(p.unwrap().label, "sleep(0.01s)");
    let (f, args) =
        plan_function(vec![LuaVal::Function(5, "f".into()), text("a")], "Function").unwrap();
    assert_eq!((f, args.len()), (5, 1));
    assert_eq!(plan_function(vec![], "").unwrap_err(), "plan(fn, ...) requires a function");
    assert_eq!(
        plan_function(vec![LuaVal::Nil], "Nil").unwrap_err(),
        "plan(fn, ...) expected a function, got Nil"
    );
}

#[test]
fn bpp_namespace_preprocessors() {
    let fresh = || LuaPlan::wrap_prebuilt("count(n=1)".into(), 6);
    let mut p = fresh();
    let w = bpp_plan(&mut p, BppCall::PrintSummary).unwrap();
    assert_eq!(w.function, PlanFn::PrintSummaryWrapper);
    assert_eq!(
        bpp_plan(&mut p, BppCall::PrintSummary).unwrap_err(),
        "plan was already consumed"
    );
    let mut c = LuaPlan::coroutine(9);
    assert!(bpp_plan(&mut c, BppCall::SubsWrapper).unwrap_err().contains("coroutine plans"));
    let w = finalize_plan(&mut fresh(), &mut fresh(), true).unwrap();
    assert_eq!(w.function, PlanFn::ContingencyWrapper);
    let w = pchain_plan(&mut vec![fresh(), fresh()]).unwrap();
    assert!(matches!(&w.args[0], PlanArg::Plans(v) if v == &vec![6, 6]));
    let w = bpp_plan(&mut fresh(), BppCall::RelativeSet(vec![motor("m1")])).unwrap();
    assert_eq!(w.function, PlanFn::RelativeSetWrapper);
    let w = bpp_plan(&mut fresh(), BppCall::MsgMutator(4)).unwrap();
    assert_eq!(w.function, PlanFn::MsgMutator);
    assert_eq!(fresh().shown(), "Plan(count(n=1))");
    assert!(matches!(mutated_msg(Msg::Null, None), Msg::Null));
    assert!(matches!(mutated_msg(Msg::Null, Some(Msg::Save)), Msg::Save));
}

#[test]
fn plans_run_once() {
    let mut p = LuaPlan::coroutine(3);
    assert_eq!(p.take_to_run(), Ok(LuaPlanKind::Coroutine(3)));
    assert_eq!(
        p.take_to_run().unwrap_err(),
        "plan was already consumed (Plans are single-use)"
    );
    assert_eq!(number_label("count", 10), "count(n=10)");
    assert_eq!(devs_of(&vec![motor("a")], Role::Movable).unwrap(), vec![obj(1, "a")]);
}

#[test]
fn bpt_namespace_pattern_generators() {
    let pts = nested_f64_to_lua_table(&vec![vec![number(0.0), number(5.0)], vec![]]);
    match pts {
        LuaOut::Items(rows) => {
            assert_eq!(rows.len(), 2);
            assert!(matches!(&rows[0], LuaOut::Items(r) if r.len() == 2));
        }
        v => panic!("{v:?}"),
    }
    let pairs = pairs_to_lua_table(&vec![(number(1.0), number(2.0))]);
    assert!(matches!(pairs, LuaOut::Items(rows) if rows.len() == 1));
}

#[test]
fn run_async_with_rejects_non_table_md() {
    let e = run_options(&LuaVal::Integer(42), &LuaVal::Nil).unwrap_err();
    assert!(e.contains("opts.md must be a table"), "{e}");
}

#[test]
fn run_async_with_rejects_non_table_subs() {
    let e = run_options(&LuaVal::Nil, &text("not a list")).unwrap_err();
    assert!(e.contains("opts.subs must be a sequence of functions"), "{e}");
}

#[test]
fn run_options_are_read() {
    let md = LuaVal::Table { items: vec![], pairs: vec![(text("operator"), text("carol"))] };
    let subs = LuaVal::Table {
        items: vec![LuaVal::Function(1, "f".into()), LuaVal::Nil, LuaVal::Function(2, "g".into())],
        pairs: vec![],
    };
    let mut p = LuaPlan::coroutine(3);
    let (kind, o) = run_with_options(&mut p, &md, &subs).unwrap();
    assert_eq!(kind, LuaPlanKind::Coroutine(3));
    assert!(o.md.contains_key("operator"));
    assert_eq!(o.subs, vec![1, 2]);
}

fn delivery(name: &str) -> Delivery {
    Delivery { name: name.into(), body: "{}".into() }
}

#[test]
fn re_subscribe_name_filter_only_fires_for_match() {
    let mut s = LuaSubscriber::new(1, Some("event".into()));
    let mut heard = 0;
    for name in ["start", "descriptor", "event", "event", "stop"] {
        if s.deliver(delivery(name), true).is_some() {
            heard += 1;
        }
    }
    assert_eq!(heard, 2);
}

#[test]
fn re_subscribe_all_fires_for_every_doc() {
    let mut s = LuaSubscriber::new(1, Some("all".into()));
    let heard = ["start", "descriptor", "event", "stop"]
        .iter()
        .filter(|n| s.deliver(delivery(n), true).is_some())
        .count();
    assert_eq!(heard, 4);
}

#[test]
fn re_subscribe_no_filter_matches_all_docs() {
    let mut s = LuaSubscriber::new(1, None);
    let heard = ["start", "descriptor", "event", "stop"]
        .iter()
        .filter(|n| s.deliver(delivery(n), true).is_some())
        .count();
    assert_eq!(heard, 4);
}

#[test]
fn lua_subscriber_drains_even_when_run_returns_error() {
    let mut all = LuaSubscribers::new();
    all.make_lua_subscriber_cb(7, None);
    all.make_lua_subscriber_cb(8, Some("stop".into()));
    assert!(all.deliver(0, delivery("start"), false).is_none());
    assert!(all.deliver(1, delivery("start"), false).is_none());
    let calls = all.drain(&vec![true, true]);
    assert_eq!(calls[0].0, 7);
    assert_eq!(calls[0].1.len(), 1);
    assert_eq!(calls[0].1[0].name, "start");
    assert!(calls.iter().all(|c| c.0 == 7 || c.1.is_empty()));
    let again = all.drain(&vec![true, true]);
    assert!(again.iter().all(|c| c.1.is_empty()));
}

#[test]
fn lua_subscriber_receives_monitor_events_via_buffered_drain() {
    let mut s = LuaSubscriber::new(4, Some("all".into()));
    for name in ["start", "descriptor", "event", "stop"] {
        assert!(s.deliver(delivery(name), false).is_none());
    }
    let docs = s.drain();
    let names: Vec<&str> = docs.iter().map(|d| d.name.as_str()).collect();
    assert_eq!(names, vec!["start", "descriptor", "event", "stop"]);
    assert!(s.drain().is_empty());
    assert_eq!(s.callback(), 4);
}

#[test]
fn payloads_and_callback_errors_are_shown() {
    assert_eq!(payload_text(Payload::Text("x".into())), "x");
    assert_eq!(payload_text(Payload::Json("{}".into())), "{}");
    assert!(!payload_text(Payload::Opaque).is_empty());
    assert!(callback_error("md_validator", "boom").describe().contains("boom"));
}
