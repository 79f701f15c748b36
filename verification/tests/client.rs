//! The command line client: arguments, requests and responses.

use cirrus::client::{
    build_request, parse_one, parse_positional_args, read_response, request_of, response_of,
    AllowedCmd, Arg, Cmd, EnvCmd, HistoryCmd, LockCmd, QueueCmd, ReCmd,
};
use cirrus::value::{Double, Json};
use serde_json::Value;

fn arg(s: &str) -> Arg {
    Arg {
        text: s.to_string(),
        float: s.parse::<f64>().ok().map(|f| Double { bits: f.to_bits() }),
    }
}

fn value(j: &Json) -> Value {
    match j {
        Json::Null => Value::Null,
        Json::Bool(b) => Value::from(*b),
        Json::UInt(n) => Value::from(*n),
        Json::Int(n) => Value::from(*n),
        Json::Real(d) => Value::from(f64::from_bits(d.bits)),
        Json::Str(s) => Value::from(s.as_str()),
        Json::Array(v) => Value::Array(v.iter().map(value).collect()),
        Json::Object(m) => Value::Object(m.iter().map(|(k, v)| (k.clone(), value(v))).collect()),
    }
}

fn request(c: Cmd) -> Value {
    serde_json::from_slice(&build_request(c).unwrap()).unwrap()
}

#[test]
fn positional_args_mix_strings_ints_floats_bools() {
    let args: Vec<Arg> = ["det1", "5", "2.5", "true", "false", "null", "hello world"]
        .iter()
        .map(|s| arg(s))
        .collect();
    let v = value(&parse_positional_args(&args));
    let arr = v.as_array().unwrap();
    assert_eq!(arr[0], Value::from("det1"));
    assert_eq!(arr[1], Value::from(5));
    assert_eq!(arr[2], Value::from(2.5));
    assert_eq!(arr[3], Value::from(true));
    assert_eq!(arr[4], Value::from(false));
    assert_eq!(arr[5], Value::Null);
    assert_eq!(arr[6], Value::from("hello world"));
}

#[test]
fn negative_and_scientific_floats_parse() {
    assert_eq!(value(&parse_one(&arg("-5"))), Value::from(-5));
    assert_eq!(value(&parse_one(&arg("-2.5"))), Value::from(-2.5));
    assert_eq!(value(&parse_one(&arg("1e3"))), Value::from(1000.0));
}

#[test]
fn pv_strings_remain_strings() {
    assert_eq!(value(&parse_one(&arg("BL10:m1.RBV"))), Value::from("BL10:m1.RBV"));
}

#[test]
fn what_is_no_number_stays_text() {
    for word in ["inf", "nan", "-infinity", "1e999"] {
        assert_eq!(value(&parse_one(&arg(word))), Value::from(word));
    }
}

#[test]
fn large_integers_are_read_as_floats() {
    assert_eq!(value(&parse_one(&arg("9223372036854775807"))), Value::from(i64::MAX));
    assert_eq!(
        value(&parse_one(&arg("9223372036854775808"))),
        Value::from(9223372036854775808.0)
    );
}

#[test]
fn requests_are_json_rpc() {
    let r = request(Cmd::Ping);
    assert_eq!(r["jsonrpc"], Value::from("2.0"));
    assert_eq!(r["method"], Value::from("ping"));
    assert_eq!(r["id"], Value::from(1));
    let r = request(Cmd::Inspect { name: "m1".into() });
    assert_eq!(r["method"], Value::from("device_inspect"));
    assert_eq!(r["params"]["name"], Value::from("m1"));
    let r = request(Cmd::Raw { method: "x".into(), params: "{\"a\": [1, 2]}".into() });
    assert_eq!(r["method"], Value::from("x"));
    assert_eq!(r["params"]["a"][1], Value::from(2));
}

#[test]
fn commands_map_to_methods() {
    let method = |c: Cmd| request_of(c).unwrap().0;
    assert_eq!(method(Cmd::Status), "status");
    assert_eq!(method(Cmd::Config), "config_get");
    assert_eq!(method(Cmd::Environment(EnvCmd::Destroy)), "environment_destroy");
    assert_eq!(method(Cmd::Queue(QueueCmd::StopCancel)), "queue_stop_cancel");
    assert_eq!(method(Cmd::Re(ReCmd::Halt)), "re_halt");
    assert_eq!(method(Cmd::Allowed(AllowedCmd::PlansExisting)), "plans_existing");
    assert_eq!(method(Cmd::History(HistoryCmd::Clear)), "history_clear");
    assert_eq!(method(Cmd::Lock(LockCmd::Info)), "lock_info");
    let (name, params) =
        request_of(Cmd::Queue(QueueCmd::Add { plan: "count".into(), args: vec![arg("3")] })).unwrap();
    assert_eq!(name, "queue_item_add");
    assert!(format!("{params:?}").contains("count"));
}

#[test]
fn bad_parameters_are_refused() {
    let e = build_request(Cmd::Raw { method: "x".into(), params: "{".into() }).unwrap_err();
    assert!(e.starts_with("invalid params JSON: "), "{e}");
}

#[test]
fn responses_give_the_result_or_the_error() {
    let ok = read_response(&b"{\"jsonrpc\":\"2.0\",\"result\":{\"msg\":\"pong\"},\"id\":1}".to_vec());
    assert_eq!(value(&ok.unwrap())["msg"], Value::from("pong"));
    let bad = br#"{"error":{"code":-32601,"message":"no such method"},"id":1}"#.to_vec();
    assert_eq!(read_response(&bad).unwrap_err(), "server error (code=-32601): no such method");
    assert_eq!(
        response_of(Json::Object(vec![("error".into(), Json::Null)])).unwrap_err(),
        "server error (code=0): unknown error"
    );
    assert!(matches!(response_of(Json::Bool(true)), Ok(Json::Bool(true))));
    assert!(read_response(&b"nope".to_vec()).is_err());
}
