//! What surrounds the engine: the manager, its script evaluation, the prompt and plain sinks.

use std::sync::Arc;

use cirrus::documents::{Document, RunStop};
use cirrus::error::CirrusError;
use cirrus::lua_value::{LuaNumber, LuaVal};
use cirrus::manager::{connect_complaint, parse_ca_detector, parse_ca_motor, ManagerArgs, SetupStep};
use cirrus::manager_lua::{
    as_expression, captured_line, eval_fault, eval_result, eval_start, method_arg_to_json,
    method_args, published_device, value_to_string, ChunkOutcome, EvalFault, EvalResult, EvalStart,
    RegisteredRoles, Shown,
};
use cirrus::msg::ObjRef;
use cirrus::repl::{
    history_path, CirrusReplHelper, Evaluated, ReplAction, ReplArgs, ReplLoop, ReplOutput,
    SinkRequest,
};
use cirrus::sinks::{jsonl_error, jsonl_line, CapturingSink, DocumentSink, StderrTraceSink};
use cirrus::strmap::StrMap;
use cirrus::value::{Double, Json};
use mlua::{Lua, Value};

fn shown(v: &Value) -> Shown {
    let value = match v {
        Value::Nil => LuaVal::Nil,
        Value::Boolean(b) => LuaVal::Boolean(*b),
        Value::Integer(i) => LuaVal::Integer(*i),
        Value::Number(n) => LuaVal::Number(LuaNumber {
            value: Double { bits: n.to_bits() },
            shown: n.to_string(),
            as_key: n.to_string(),
        }),
        Value::String(s) => match s.to_str() {
            Ok(s) => LuaVal::Str(s.to_string()),
            Err(e) => LuaVal::Bytes(e.to_string()),
        },
        other => LuaVal::Other(format!("{other:?}")),
    };
    Shown { value, full: format!("{v:?}") }
}

fn eval(lua: &Lua, source: &str) -> EvalResult {
    let lines = Arc::new(std::sync::Mutex::new(Vec::new()));
    let sink = lines.clone();
    let print = lua
        .create_function(move |_, args: mlua::Variadic<Value>| {
            let values: Vec<Shown> = args.iter().map(shown).collect();
            sink.lock().unwrap().push(captured_line(&values));
            Ok(())
        })
        .unwrap();
    lua.globals().set("print", print).unwrap();
    let outcome = match lua.load(as_expression(source)).eval::<Value>() {
        Ok(v) => ChunkOutcome::Expression(shown(&v)),
        Err(_) => match lua.load(source).eval::<mlua::MultiValue>() {
            Ok(vs) => ChunkOutcome::Statements(vs.iter().map(shown).collect()),
            Err(e) => ChunkOutcome::Failed(e.to_string()),
        },
    };
    let lines = lines.lock().unwrap().clone();
    eval_result(&lines, outcome)
}

#[test]
fn eval_without_environment_errors() {
    match eval_start(false, false) {
        EvalStart::Refuse(r) => assert!(r.error.unwrap().contains("environment not open")),
        s => panic!("{s:?}"),
    }
    assert!(matches!(eval_start(false, true), EvalStart::Build));
    assert!(matches!(eval_start(true, false), EvalStart::Ready));
}

#[test]
fn eval_expression_returns_value() {
    let r = eval(&Lua::new(), "1 + 2");
    assert!(r.error.is_none(), "{r:?}");
    assert_eq!(r.return_value.as_deref(), Some("3"));
    assert_eq!(r.stdout, "");
}

#[test]
fn eval_print_captures_stdout() {
    let r = eval(&Lua::new(), "print(\"hello\"); print(42)");
    assert!(r.error.is_none(), "{r:?}");
    assert!(r.return_value.is_none());
    assert_eq!(r.stdout, "hello\n42");
}

#[test]
fn eval_globals_persist_between_calls() {
    let lua = Lua::new();
    let _ = eval(&lua, "x = 41");
    let r = eval(&lua, "x + 1");
    assert_eq!(r.return_value.as_deref(), Some("42"));
}

#[test]
fn eval_lua_error_surfaces() {
    let r = eval(&Lua::new(), "error('boom')");
    assert!(r.error.is_some());
    assert!(r.error.as_deref().unwrap().contains("boom"));
}

#[test]
fn faults_of_an_evaluation_are_named() {
    let told = |f: EvalFault| eval_fault(f).error.unwrap();
    assert_eq!(told(EvalFault::Build("x".into())), "lua_eval: build state: x");
    assert_eq!(told(EvalFault::Vanished), "lua_eval: state vanished between init and eval");
    assert_eq!(told(EvalFault::Join("x".into())), "lua_eval task join: x");
    assert_eq!(told(EvalFault::CreatePrint("x".into())), "create capture print: x");
    assert_eq!(told(EvalFault::InstallPrint("x".into())), "install capture print: x");
}

#[test]
fn method_arguments_are_scalars() {
    let v = |value: LuaVal| Shown { value, full: "Table(0x1)".into() };
    assert!(matches!(method_arg_to_json(&v(LuaVal::Integer(-3))), Ok(Json::Int(-3))));
    let e = method_arg_to_json(&v(LuaVal::Table { items: vec![], pairs: vec![] })).unwrap_err();
    assert_eq!(e, "lua_method: unsupported arg type: Table(0x1)");
    let device = || v(LuaVal::UserData("dx".into()));
    assert_eq!(method_args(&vec![device(), v(LuaVal::Nil)]).unwrap().len(), 1);
    assert!(method_args(&vec![device(), v(LuaVal::Other("thread".into()))]).is_err());
    assert_eq!(value_to_string(&v(LuaVal::Other("thread".into()))), "Table(0x1)");
    assert_eq!(captured_line(&vec![v(LuaVal::Nil), v(LuaVal::Boolean(false))]), "nil\tfalse");
}

#[test]
fn published_devices_play_what_is_registered() {
    let obj = || Some(ObjRef { id: 4, name: "dx".into() });
    let d = published_device(
        "dx",
        RegisteredRoles {
            readable: obj(),
            movable: None,
            triggerable: obj(),
            stageable: None,
            flyable: None,
            collectable: None,
        },
    );
    assert_eq!(d.name, "dx");
    assert!(d.readable.is_some() && d.triggerable.is_some());
    assert!(d.movable.is_none() && d.pausable.is_none());
}

#[test]
fn motors_and_detectors_are_described_on_the_command_line() {
    let m = parse_ca_motor("m1=S:m1.VAL,S:m1.RBV").unwrap();
    assert_eq!((m.name.as_str(), m.val_pv.as_str(), m.rbv_pv.as_str()), ("m1", "S:m1.VAL", "S:m1.RBV"));
    assert_eq!(
        parse_ca_motor("m1").unwrap_err(),
        "cirrus qs-manager: --ca-motor expects 'name=val_pv,rbv_pv', got \"m1\""
    );
    assert_eq!(
        parse_ca_motor("m1=S:m1").unwrap_err(),
        "cirrus qs-manager: --ca-motor PVs must be 'val,rbv', got \"S:m1\""
    );
    let d = parse_ca_detector("d=S:a=b").unwrap();
    assert_eq!((d.name.as_str(), d.pv.as_str()), ("d", "S:a=b"));
    assert!(parse_ca_detector("d").is_err());
    assert_eq!(connect_complaint("connect", "m1", "no"), "cirrus qs-manager: connect m1: no");
}

#[test]
fn the_setup_goes_step_by_step() {
    let mut a = ManagerArgs::default();
    a.soft_detectors = 2;
    a.ca_motor.push("c=v,r".into());
    a.ca_detector.push("bad".into());
    let steps: Vec<String> = (0..7).map(|i| format!("{:?}", a.step(i))).collect();
    assert!(steps[0].contains("det1") && steps[1].contains("det2"));
    assert!(steps[2].contains("m1") && steps[3].contains("count"));
    assert!(matches!(a.step(4), SetupStep::CaMotor(s) if s.name == "c"));
    assert!(matches!(a.step(5), SetupStep::Fail(_)));
    assert!(matches!(a.step(6), SetupStep::Serve));
    assert_eq!(a.checkpoint_path(None, None), ".cirrus_checkpoints.jsonl");
    a.checkpoints = Some("/x".into());
    assert_eq!(a.checkpoint_path(None, None), "/x");
    assert!(a.greeting().contains("tcp://*:60615"));
}

#[test]
fn words_are_completed() {
    let h = CirrusReplHelper::default();
    let (start, words) = h.complete("x = msg.s", 9);
    assert_eq!(start, 4);
    assert_eq!(words, vec!["msg.save", "msg.set", "msg.sleep", "msg.stage", "msg.stop_dev", "msg.subscribe"]);
    assert_eq!(h.complete("RE:run(", 7), (7, vec![]));
    assert_eq!(h.complete("RE:run_", 99).1, vec!["RE:run_async_with"]);
    assert_eq!(h.complete(":q", 2).1, vec![":quit"]);
}

#[test]
fn the_prompt_obeys_commands_and_gathers_lines() {
    let mut l = ReplLoop::new();
    assert_eq!(l.prompt(), "cirrus> ");
    assert!(matches!(l.line("  :help "), ReplAction::Help));
    assert!(matches!(l.line(":exit"), ReplAction::Quit));
    assert!(matches!(l.line(":reset"), ReplAction::Next));
    assert!(matches!(l.line(":script  a b.lua "), ReplAction::RunScript(p) if p == "a b.lua"));
    match l.line("function f()") {
        ReplAction::Evaluate { expression, statements } => {
            assert_eq!(expression, "return function f()");
            assert_eq!(statements, "function f()");
        }
        a => panic!("{a:?}"),
    }
    assert!(matches!(l.evaluated(Evaluated::Incomplete), ReplOutput::Nothing));
    assert_eq!(l.prompt(), "    ... ");
    match l.line(":help") {
        ReplAction::Evaluate { statements, .. } => assert_eq!(statements, "function f()\n:help"),
        a => panic!("{a:?}"),
    }
    match l.evaluated(Evaluated::Error("bad".into())) {
        ReplOutput::Complaint(t) => assert_eq!(t, "error: bad"),
        o => panic!("{o:?}"),
    }
    assert_eq!(l.prompt(), "cirrus> ");
    l.line("x");
    assert!(matches!(l.evaluated(Evaluated::Value(LuaVal::Nil, "Nil".into())), ReplOutput::Nothing));
    l.line("function g()");
    assert!(matches!(l.evaluated(Evaluated::Incomplete), ReplOutput::Nothing));
    assert!(matches!(l.line(" :reset"), ReplAction::Next));
    assert_eq!(l.prompt(), "cirrus> ");
    l.line("y");
    assert_eq!(l.interrupted(), "(buffer cleared)");
    assert_eq!(l.prompt(), "cirrus> ");
    assert_eq!(history_path(Some("/h".into())), "/h/.cirrus_repl_history");
}

#[test]
fn sinks_are_opened_in_order() {
    let mut a = ReplArgs::default();
    assert!(a.sinks(None).is_empty());
    a.doc_tiled = Some("http://h".into());
    a.doc_zmq = Some("tcp://*:1".into());
    let v = a.sinks(Some("env".into()));
    assert!(matches!(&v[0], SinkRequest::Zmq(z) if z == "tcp://*:1"));
    match &v[1] {
        SinkRequest::Tiled { container, key, .. } => {
            assert_eq!(container, "cirrus");
            assert_eq!(key.as_deref(), Some("env"));
        }
        s => panic!("{s:?}"),
    }
    a.doc_tiled_key = Some("given".into());
    assert_eq!(a.tiled_key(Some("env".into())).as_deref(), Some("given"));
}

#[test]
fn captured_documents_are_kept_in_order() {
    let stop = Arc::new(Document::Stop(RunStop {
        uid: "s".into(),
        run_start: "r".into(),
        time: Double { bits: 0 },
        exit_status: "success".into(),
        reason: None,
        num_events: StrMap::new(),
    }));
    let mut sink = CapturingSink::default();
    sink.dispatch(&stop).unwrap();
    sink.dispatch(&stop).unwrap();
    assert_eq!(sink.snapshot().len(), 2);
    assert_eq!(StderrTraceSink.trace_line(&stop), "[cirrus] stop");
    assert_eq!(jsonl_line("{}"), "{}\n");
    assert_eq!(jsonl_error(true, "x"), CirrusError::Backend("jsonl open: x".into()));
    assert_eq!(jsonl_error(false, "x"), CirrusError::Backend("jsonl write: x".into()));
}
