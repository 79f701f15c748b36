//! Requests to a queue server, and the reading of its responses.

use vstd::prelude::*;
use vstd::string::*;

use crate::codec::{
    decode_json, encode_json, json_of_bytes, json_of_text, json_to_bytes, lossy_text, parse_json,
    text_lossy,
};
use crate::msg::{debug_str, str_debug};
use crate::text::{
    dec_i64, i64_written, join2, join3, law_written_numbers_read_back, parse_i64, parse_u64,
    signed_decimal, str_eq, u64_written,
};
use crate::value::{
    empty_object, json_get, law_member_is_the_first, object, object1, object2, text_json, Double, Duplicate,
    Json, JsonView,
};

verus! {

/// A positional argument: its text, and the double that the text writes, if it writes one.
#[derive(Debug)]
pub struct Arg {
    /// The text.
    pub text: String,
    /// The double that the text writes.
    pub float: Option<Double>,
}

/// Arguments of the client.
#[derive(Debug)]
pub struct ClientArgs {
    /// Control address of the server.
    pub address: String,
    /// Receive timeout in milliseconds.
    pub timeout_ms: i32,
    /// What to ask for.
    pub cmd: Cmd,
}

/// What a client asks for.
#[derive(Debug)]
pub enum Cmd {
    /// Health check.
    Ping,
    /// Server status.
    Status,
    /// Implementation and version.
    Config,
    /// Engine environment.
    Environment(EnvCmd),
    /// Queue operations.
    Queue(QueueCmd),
    /// Engine control.
    Re(ReCmd),
    /// Allowed or existing plans and devices.
    Allowed(AllowedCmd),
    /// Plan history.
    History(HistoryCmd),
    /// Lock manager.
    Lock(LockCmd),
    /// State of a registered device.
    Inspect {
        /// Device name.
        name: String,
    },
    /// Any method by its name.
    Raw {
        /// Method name.
        method: String,
        /// Parameters as JSON text.
        params: String,
    },
}

/// Operations on the engine environment.
#[derive(Debug)]
pub enum EnvCmd {
    /// Make a fresh engine.
    Open,
    /// Drop the engine.
    Close,
    /// Drop the engine without checks.
    Destroy,
    /// Refresh the registry.
    Update,
}

/// Operations on the queue.
#[derive(Debug)]
pub enum QueueCmd {
    /// Add a plan.
    Add {
        /// Plan name.
        plan: String,
        /// Positional arguments.
        args: Vec<Arg>,
    },
    /// List the items.
    Get,
    /// Remove an item.
    Remove {
        /// Item to remove.
        uid: String,
    },
    /// Drop all items.
    Clear,
    /// Fetch one item.
    Item {
        /// Item to fetch.
        uid: String,
    },
    /// Reorder an item.
    Move {
        /// Item to move.
        uid: String,
        /// `front`, `back`, or an index.
        pos_dest: String,
    },
    /// Run a plan without queueing it.
    Execute {
        /// Plan name.
        plan: String,
        /// Positional arguments.
        args: Vec<Arg>,
    },
    /// Begin executing the queue.
    Start,
    /// Stop after the current item.
    Stop,
    /// Cancel a pending stop.
    StopCancel,
    /// Turn the automatic start on or off.
    Autostart {
        /// `enable` or anything else.
        option: String,
    },
    /// Set the queue mode.
    Mode {
        /// The mode as JSON text.
        mode: String,
    },
}

/// Control of the engine.
#[derive(Debug)]
pub enum ReCmd {
    /// Pause.
    Pause {
        /// Whether to pause at the next checkpoint.
        deferred: bool,
    },
    /// Resume.
    Resume,
    /// Abort.
    Abort,
    /// Halt.
    Halt,
    /// Stop gracefully.
    Stop,
    /// List recent runs.
    Runs,
    /// Get or set the metadata.
    Metadata {
        /// Metadata to merge, as JSON text.
        merge: Option<String>,
    },
}

/// Which plans or devices to list.
#[derive(Debug)]
pub enum AllowedCmd {
    /// Allowed plans.
    Plans,
    /// Existing plans.
    PlansExisting,
    /// Allowed devices.
    Devices,
    /// Existing devices.
    DevicesExisting,
}

/// Operations on the history.
#[derive(Debug)]
pub enum HistoryCmd {
    /// Get.
    Get,
    /// Clear.
    Clear,
}

/// Operations on the lock.
#[derive(Debug)]
pub enum LockCmd {
    /// Install a lock.
    Apply {
        /// Lock key.
        key: String,
        /// Whether to lock the queue.
        queue: bool,
        /// Whether to lock the environment.
        environment: bool,
        /// Free-form note.
        note: Option<String>,
        /// User name.
        user: Option<String>,
    },
    /// Current lock state.
    Info,
    /// Release the lock.
    Release {
        /// Lock key.
        key: String,
    },
}

/// The value that one positional argument stands for: `true`, `false` and `null` are what
/// they say, numbers are numbers, and anything else is a string.
pub open spec fn arg_value(text: Seq<char>, float: Option<Double>) -> JsonView {
    if text == "true"@ {
        JsonView::Bool(true)
    } else if text == "false"@ {
        JsonView::Bool(false)
    } else if text == "null"@ {
        JsonView::Null
    } else {
        match (i64_written(text), float) {
            (Some(i), _) => JsonView::Integer(i as int),
            (None, Some(x)) if x.finite() => JsonView::Real(x),
            _ => JsonView::Str(text),
        }
    }
}

/// The values of positional arguments, in order.
pub open spec fn arg_values(args: Seq<Arg>) -> JsonView {
    JsonView::Array(Seq::new(args.len(), |i: int| arg_value(args[i].text@, args[i].float)))
}

/// An object with the given members.
pub open spec fn obj(members: Seq<(Seq<char>, JsonView)>) -> JsonView {
    JsonView::Object(members)
}

/// The parameters of a plan item.
pub open spec fn item_params(plan: Seq<char>, args: Seq<Arg>) -> JsonView {
    obj(seq![("item"@, obj(seq![("name"@, JsonView::Str(plan)), ("args"@, arg_values(args))]))])
}

/// The destination of a move: an index, or a word.
pub open spec fn position_value(text: Seq<char>) -> JsonView {
    match u64_written(text) {
        Some(n) => JsonView::Integer(n as int),
        None => JsonView::Str(text),
    }
}

/// A string, or `null`.
pub open spec fn opt_value(text: Option<String>) -> JsonView {
    match text {
        Some(s) => JsonView::Str(s@),
        None => JsonView::Null,
    }
}

/// The method and the parameters of a request, or the text of the error.
pub type RequestSpec = Result<(Seq<char>, JsonView), Seq<char>>;

/// A request with the given method and parameters.
pub open spec fn asks(method: Seq<char>, params: JsonView) -> RequestSpec {
    Ok((method, params))
}

/// A request without parameters.
pub open spec fn asks_plainly(method: Seq<char>) -> RequestSpec {
    asks(method, obj(seq![]))
}

/// The request that a command on the environment makes.
pub open spec fn env_request(c: EnvCmd) -> RequestSpec {
    match c {
        EnvCmd::Open => asks_plainly("environment_open"@),
        EnvCmd::Close => asks_plainly("environment_close"@),
        EnvCmd::Destroy => asks_plainly("environment_destroy"@),
        EnvCmd::Update => asks_plainly("environment_update"@),
    }
}

/// The request that a command on the queue makes.
pub open spec fn queue_request(c: QueueCmd) -> RequestSpec {
    match c {
        QueueCmd::Add { plan, args } => asks("queue_item_add"@, item_params(plan@, args@)),
        QueueCmd::Get => asks_plainly("queue_get"@),
        QueueCmd::Remove { uid } => asks(
            "queue_item_remove"@,
            obj(seq![("uid"@, JsonView::Str(uid@))]),
        ),
        QueueCmd::Clear => asks_plainly("queue_clear"@),
        QueueCmd::Item { uid } => asks("queue_item_get"@, obj(seq![("uid"@, JsonView::Str(uid@))])),
        QueueCmd::Move { uid, pos_dest } => asks(
            "queue_item_move"@,
            obj(seq![("uid"@, JsonView::Str(uid@)), ("pos_dest"@, position_value(pos_dest@))]),
        ),
        QueueCmd::Execute { plan, args } => asks(
            "queue_item_execute"@,
            item_params(plan@, args@),
        ),
        QueueCmd::Start => asks_plainly("queue_start"@),
        QueueCmd::Stop => asks_plainly("queue_stop"@),
        QueueCmd::StopCancel => asks_plainly("queue_stop_cancel"@),
        QueueCmd::Autostart { option } => asks(
            "queue_autostart"@,
            obj(seq![("enable"@, JsonView::Bool(option@ == "enable"@))]),
        ),
        QueueCmd::Mode { mode } => match json_of_text(mode@) {
            Ok(m) => asks("queue_mode_set"@, obj(seq![("mode"@, m)])),
            Err(e) => Err("invalid mode JSON: "@ + e),
        },
    }
}

/// The request that a command on the engine makes.
pub open spec fn re_request(c: ReCmd) -> RequestSpec {
    match c {
        ReCmd::Pause { deferred } => asks(
            "re_pause"@,
            obj(
                seq![
                    (
                        "option"@,
                        JsonView::Str(
                            if deferred {
                                "deferred"@
                            } else {
                                "immediate"@
                            },
                        ),
                    ),
                ],
            ),
        ),
        ReCmd::Resume => asks_plainly("re_resume"@),
        ReCmd::Abort => asks_plainly("re_abort"@),
        ReCmd::Halt => asks_plainly("re_halt"@),
        ReCmd::Stop => asks_plainly("re_stop"@),
        ReCmd::Runs => asks_plainly("re_runs"@),
        ReCmd::Metadata { merge } => match merge {
            Some(text) => match json_of_text(text@) {
                Ok(m) => asks("re_metadata"@, obj(seq![("metadata"@, m)])),
                Err(e) => Err("invalid metadata JSON: "@ + e),
            },
            None => asks_plainly("re_metadata"@),
        },
    }
}

/// The request that a command on the lock makes.
pub open spec fn lock_request(c: LockCmd) -> RequestSpec {
    match c {
        LockCmd::Apply { key, queue, environment, note, user } => asks(
            "lock"@,
            obj(
                seq![
                    ("lock_key"@, JsonView::Str(key@)),
                    ("queue"@, JsonView::Bool(queue)),
                    ("environment"@, JsonView::Bool(environment)),
                    ("note"@, opt_value(note)),
                    ("user"@, opt_value(user)),
                ],
            ),
        ),
        LockCmd::Info => asks_plainly("lock_info"@),
        LockCmd::Release { key } => asks("unlock"@, obj(seq![("lock_key"@, JsonView::Str(key@))])),
    }
}

/// The request that a command makes.
pub open spec fn request_spec(c: Cmd) -> RequestSpec {
    match c {
        Cmd::Ping => asks_plainly("ping"@),
        Cmd::Status => asks_plainly("status"@),
        Cmd::Config => asks_plainly("config_get"@),
        Cmd::Environment(e) => env_request(e),
        Cmd::Queue(q) => queue_request(q),
        Cmd::Re(r) => re_request(r),
        Cmd::Allowed(AllowedCmd::Plans) => asks_plainly("plans_allowed"@),
        Cmd::Allowed(AllowedCmd::PlansExisting) => asks_plainly("plans_existing"@),
        Cmd::Allowed(AllowedCmd::Devices) => asks_plainly("devices_allowed"@),
        Cmd::Allowed(AllowedCmd::DevicesExisting) => asks_plainly("devices_existing"@),
        Cmd::History(HistoryCmd::Get) => asks_plainly("history_get"@),
        Cmd::History(HistoryCmd::Clear) => asks_plainly("history_clear"@),
        Cmd::Lock(l) => lock_request(l),
        Cmd::Inspect { name } => asks(
            "device_inspect"@,
            obj(seq![("name"@, JsonView::Str(name@))]),
        ),
        Cmd::Raw { method, params } => match json_of_text(params@) {
            Ok(p) => asks(method@, p),
            Err(e) => Err("invalid params JSON: "@ + e),
        },
    }
}

/// Whether an outcome is what a specification says.
pub open spec fn agrees(r: Result<(String, Json), String>, want: RequestSpec) -> bool {
    match r {
        Ok((m, p)) => want == asks(m@, p.deep_view()),
        Err(e) => want == Err::<(Seq<char>, JsonView), Seq<char>>(e@),
    }
}

/// The value that one positional argument stands for.
pub fn parse_one(arg: &Arg) -> (j: Json)
    ensures
        j.deep_view() == arg_value(arg.text@, arg.float),
{
    if str_eq(&arg.text, "true") {
        Json::Bool(true)
    } else if str_eq(&arg.text, "false") {
        Json::Bool(false)
    } else if str_eq(&arg.text, "null") {
        Json::Null
    } else {
        match (parse_i64(&arg.text), arg.float) {
            (Some(i), _) => Json::Int(i),
            (None, Some(x)) if x.is_finite() => Json::Real(x),
            _ => Json::Str(arg.text.clone()),
        }
    }
}

/// The array of the values of positional arguments.
pub fn parse_positional_args(args: &Vec<Arg>) -> (j: Json)
    ensures
        j.deep_view() == arg_values(args@),
{
    let mut out: Vec<Json> = Vec::new();
    let mut i: usize = 0;
    while i < args.len()
        invariant
            i <= args.len(),
            out@.len() == i,
            forall|k: int|
                0 <= k < i ==> (#[trigger] out@[k]).deep_view() == arg_value(
                    args@[k].text@,
                    args@[k].float,
                ),
        decreases args.len() - i,
    {
        out.push(parse_one(&args[i]));
        i += 1;
    }
    let j = Json::Array(out);
    proof {
        assert forall|k: int| 0 <= k < out@.len() implies j.deep_view()->Array_0[k] == arg_values(
            args@,
        )->Array_0[k] by {
            assert(out@[k].deep_view() == arg_value(args@[k].text@, args@[k].float));
        }
        assert(j.deep_view()->Array_0 =~= arg_values(args@)->Array_0);
    }
    j
}

fn plainly(method: &str) -> (r: Result<(String, Json), String>)
    ensures
        agrees(r, asks_plainly(method@)),
{
    Ok((method.to_owned(), empty_object()))
}

fn with_text(method: &str, key: &str, text: String) -> (r: Result<(String, Json), String>)
    ensures
        agrees(r, asks(method@, obj(seq![(key@, JsonView::Str(text@))]))),
{
    Ok((method.to_owned(), object1(key, Json::Str(text))))
}

fn with_item(method: &str, plan: String, args: &Vec<Arg>) -> (r: Result<(String, Json), String>)
    ensures
        agrees(r, asks(method@, item_params(plan@, args@))),
{
    let item = object2("name", Json::Str(plan), "args", parse_positional_args(args));
    Ok((method.to_owned(), object1("item", item)))
}

fn opt_json(text: Option<String>) -> (j: Json)
    ensures
        j.deep_view() == opt_value(text),
{
    match text {
        Some(s) => Json::Str(s),
        None => Json::Null,
    }
}

fn queue_call(c: QueueCmd) -> (r: Result<(String, Json), String>)
    ensures
        agrees(r, queue_request(c)),
{
    match c {
        QueueCmd::Add { plan, args } => with_item("queue_item_add", plan, &args),
        QueueCmd::Get => plainly("queue_get"),
        QueueCmd::Remove { uid } => with_text("queue_item_remove", "uid", uid),
        QueueCmd::Clear => plainly("queue_clear"),
        QueueCmd::Item { uid } => with_text("queue_item_get", "uid", uid),
        QueueCmd::Move { uid, pos_dest } => {
            let dest = match parse_u64(&pos_dest) {
                Some(n) => Json::UInt(n),
                None => Json::Str(pos_dest),
            };
            Ok(("queue_item_move".to_owned(), object2("uid", Json::Str(uid), "pos_dest", dest)))
        },
        QueueCmd::Execute { plan, args } => with_item("queue_item_execute", plan, &args),
        QueueCmd::Start => plainly("queue_start"),
        QueueCmd::Stop => plainly("queue_stop"),
        QueueCmd::StopCancel => plainly("queue_stop_cancel"),
        QueueCmd::Autostart { option } => Ok(
            (
                "queue_autostart".to_owned(),
                object1("enable", Json::Bool(str_eq(&option, "enable"))),
            ),
        ),
        QueueCmd::Mode { mode } => match parse_json(&mode) {
            Ok(m) => Ok(("queue_mode_set".to_owned(), object1("mode", m))),
            Err(e) => Err(join2("invalid mode JSON: ", &e)),
        },
    }
}

fn re_call(c: ReCmd) -> (r: Result<(String, Json), String>)
    ensures
        agrees(r, re_request(c)),
{
    match c {
        ReCmd::Pause { deferred } => {
            let option = if deferred {
                text_json("deferred")
            } else {
                text_json("immediate")
            };
            Ok(("re_pause".to_owned(), object1("option", option)))
        },
        ReCmd::Resume => plainly("re_resume"),
        ReCmd::Abort => plainly("re_abort"),
        ReCmd::Halt => plainly("re_halt"),
        ReCmd::Stop => plainly("re_stop"),
        ReCmd::Runs => plainly("re_runs"),
        ReCmd::Metadata { merge } => match merge {
            Some(text) => match parse_json(&text) {
                Ok(m) => Ok(("re_metadata".to_owned(), object1("metadata", m))),
                Err(e) => Err(join2("invalid metadata JSON: ", &e)),
            },
            None => plainly("re_metadata"),
        },
    }
}

fn lock_call(c: LockCmd) -> (r: Result<(String, Json), String>)
    ensures
        agrees(r, lock_request(c)),
{
    match c {
        LockCmd::Apply { key, queue, environment, note, user } => {
            let mut members: Vec<(String, Json)> = Vec::new();
            members.push(("lock_key".to_owned(), Json::Str(key)));
            members.push(("queue".to_owned(), Json::Bool(queue)));
            members.push(("environment".to_owned(), Json::Bool(environment)));
            members.push(("note".to_owned(), opt_json(note)));
            members.push(("user".to_owned(), opt_json(user)));
            let params = object(members);
            proof {
                let want = lock_request(c)->Ok_0.1;
                reveal_with_fuel(crate::value::json_view, 2);
                assert(params.deep_view()->Object_0 =~= want->Object_0);
            }
            Ok(("lock".to_owned(), params))
        },
        LockCmd::Info => plainly("lock_info"),
        LockCmd::Release { key } => with_text("unlock", "lock_key", key),
    }
}

/// The method and the parameters that a command asks for.
pub fn request_of(c: Cmd) -> (r: Result<(String, Json), String>)
    ensures
        agrees(r, request_spec(c)),
{
    match c {
        Cmd::Ping => plainly("ping"),
        Cmd::Status => plainly("status"),
        Cmd::Config => plainly("config_get"),
        Cmd::Environment(EnvCmd::Open) => plainly("environment_open"),
        Cmd::Environment(EnvCmd::Close) => plainly("environment_close"),
        Cmd::Environment(EnvCmd::Destroy) => plainly("environment_destroy"),
        Cmd::Environment(EnvCmd::Update) => plainly("environment_update"),
        Cmd::Queue(q) => queue_call(q),
        Cmd::Re(re) => re_call(re),
        Cmd::Allowed(AllowedCmd::Plans) => plainly("plans_allowed"),
        Cmd::Allowed(AllowedCmd::PlansExisting) => plainly("plans_existing"),
        Cmd::Allowed(AllowedCmd::Devices) => plainly("devices_allowed"),
        Cmd::Allowed(AllowedCmd::DevicesExisting) => plainly("devices_existing"),
        Cmd::History(HistoryCmd::Get) => plainly("history_get"),
        Cmd::History(HistoryCmd::Clear) => plainly("history_clear"),
        Cmd::Lock(l) => lock_call(l),
        Cmd::Inspect { name } => with_text("device_inspect", "name", name),
        Cmd::Raw { method, params } => match parse_json(&params) {
            Ok(p) => Ok((method, p)),
            Err(e) => Err(join2("invalid params JSON: ", &e)),
        },
    }
}

/// The JSON-RPC request for a method with parameters.
pub open spec fn rpc_request(method: Seq<char>, params: JsonView) -> JsonView {
    obj(
        seq![
            ("jsonrpc"@, JsonView::Str("2.0"@)),
            ("method"@, JsonView::Str(method)),
            ("params"@, params),
            ("id"@, JsonView::Integer(1)),
        ],
    )
}

/// The JSON-RPC request for a method with parameters.
pub fn rpc(method: String, params: Json) -> (j: Json)
    ensures
        j.deep_view() == rpc_request(method@, params.deep_view()),
{
    let mut members: Vec<(String, Json)> = Vec::new();
    members.push(("jsonrpc".to_owned(), text_json("2.0")));
    members.push(("method".to_owned(), Json::Str(method)));
    members.push(("params".to_owned(), params));
    members.push(("id".to_owned(), Json::UInt(1)));
    let j = object(members);
    proof {
        reveal_with_fuel(crate::value::json_view, 2);
        assert(j.deep_view()->Object_0 =~= rpc_request(
            method@,
            params.deep_view(),
        )->Object_0);
    }
    j
}

/// The bytes of the request that a command makes.
pub fn build_request(c: Cmd) -> (r: Result<Vec<u8>, String>)
    ensures
        match request_spec(c) {
            Err(e) => r is Err && r->Err_0@ == e,
            Ok((method, params)) => match json_to_bytes(rpc_request(method, params)) {
                Ok(b) => r is Ok && r->Ok_0@ == b,
                Err(e) => r is Err && r->Err_0@ == "encode request: "@ + e,
            },
        },
{
    match request_of(c) {
        Err(e) => Err(e),
        Ok((method, params)) => match encode_json(&rpc(method, params)) {
            Ok(b) => Ok(b),
            Err(e) => Err(join2("encode request: ", &e)),
        },
    }
}

/// What a decoded response amounts to: the server's error, the result, or the value itself.
pub open spec fn response_spec(value: JsonView) -> Result<JsonView, Seq<char>> {
    match json_get(value, "error"@) {
        Some(err) => {
            let message = match json_get(err, "message"@) {
                Some(JsonView::Str(m)) => m,
                _ => "unknown error"@,
            };
            let code = match json_get(err, "code"@) {
                Some(JsonView::Integer(n)) => if i64::MIN <= n <= i64::MAX {
                    n
                } else {
                    0
                },
                _ => 0,
            };
            Err("server error (code="@ + signed_decimal(code) + "): "@ + message)
        },
        None => match json_get(value, "result"@) {
            Some(result) => Ok(result),
            None => Ok(value),
        },
    }
}

/// What a decoded response amounts to.
pub fn response_of(value: Json) -> (r: Result<Json, String>)
    ensures
        match r {
            Ok(j) => response_spec(value.deep_view()) == Ok::<JsonView, Seq<char>>(j.deep_view()),
            Err(e) => response_spec(value.deep_view()) == Err::<JsonView, Seq<char>>(e@),
        },
{
    match value.get("error") {
        Some(err) => {
            let message = match err.get("message") {
                Some(m) => match m.as_str() {
                    Some(s) => s.clone(),
                    None => "unknown error".to_owned(),
                },
                None => "unknown error".to_owned(),
            };
            let code: i64 = match err.get("code") {
                Some(c) => match c.as_i64() {
                    Some(n) => n,
                    None => 0,
                },
                None => 0,
            };
            let head = join3("server error (code=", &dec_i64(code), "): ");
            return Err(join2(&head, &message));
        },
        None => {},
    }
    match value.get("result") {
        Some(result) => {
            return Ok(result.duplicate());
        },
        None => {},
    }
    Ok(value)
}

/// Reads the response of the server.
pub fn read_response(bytes: &Vec<u8>) -> (r: Result<Json, String>)
    ensures
        match json_of_bytes(bytes@) {
            Err(e) => r is Err && r->Err_0@ == "decode response: "@ + e + "; raw = "@ + str_debug(
                text_lossy(bytes@),
            ),
            Ok(value) => match r {
                Ok(j) => response_spec(value) == Ok::<JsonView, Seq<char>>(j.deep_view()),
                Err(e) => response_spec(value) == Err::<JsonView, Seq<char>>(e@),
            },
        },
{
    match decode_json(bytes.as_slice()) {
        Ok(value) => response_of(value),
        Err(e) => {
            let raw = debug_str(&lossy_text(bytes.as_slice()));
            let head = join3("decode response: ", &e, "; raw = ");
            Err(join2(&head, &raw))
        },
    }
}

/// Whether a value is what a positional argument writes: the words `true`, `false` and `null` what
/// they say, a whole number itself, any other finite number itself, and anything else its text.
pub open spec fn writes(arg: Arg, v: JsonView) -> bool {
    if arg.text@ == "true"@ || arg.text@ == "false"@ {
        v == JsonView::Bool(arg.text@ == "true"@)
    } else if arg.text@ == "null"@ {
        v is Null
    } else if i64_written(arg.text@) is Some {
        v == JsonView::Integer(i64_written(arg.text@)->0 as int)
    } else if arg.float is Some && arg.float->0.finite() {
        v == JsonView::Real(arg.float->0)
    } else {
        v == JsonView::Str(arg.text@)
    }
}

/// A request that adds a plan to the queue or executes one carries the plan and all of its
/// arguments: its item has the name of the plan, and an array as long as the list of arguments whose
/// entries are what the arguments write, in order.
pub proof fn law_item_carries_all_arguments(
    execute: bool,
    plan: String,
    args: Vec<Arg>,
    r: Result<(String, Json), String>,
)
    requires
        call_ensures(
            request_of,
            (Cmd::Queue(
                if execute {
                    QueueCmd::Execute { plan, args }
                } else {
                    QueueCmd::Add { plan, args }
                },
            ),),
            r,
        ),
    ensures
        r matches Ok((method, params)) && {
            &&& method@ == if execute {
                "queue_item_execute"@
            } else {
                "queue_item_add"@
            }
            &&& params.deep_view() matches JsonView::Object(members) && members.len() == 1
                && members[0].0 == "item"@ && (members[0].1 matches JsonView::Object(item)
                && item.len() == 2 && item[0].0 == "name"@ && item[0].1 == JsonView::Str(plan@)
                && item[1].0 == "args"@ && (item[1].1 matches JsonView::Array(values)
                && values.len() == args@.len() && forall|i: int|
                0 <= i < args@.len() ==> writes(args@[i], #[trigger] values[i])))
        },
{
    let params = r->Ok_0.1.deep_view();
    let members = params->Object_0;
    let item = members[0].1->Object_0;
    let values = item[1].1->Array_0;
    assert forall|i: int| 0 <= i < args@.len() implies writes(args@[i], #[trigger] values[i]) by {
        assert(values[i] == arg_value(args@[i].text@, args@[i].float));
    }
}

/// A whole number that an argument writes in decimal notation is that number.
pub proof fn law_whole_arguments_are_numbers(arg: Arg, n: i64, j: Json)
    requires
        arg.text@ == signed_decimal(n as int),
        call_ensures(parse_one, (&arg,), j),
    ensures
        j.deep_view() == JsonView::Integer(n as int),
{
    law_written_numbers_read_back(0, n, arg.text@);
    reveal_strlit("true");
    reveal_strlit("false");
    reveal_strlit("null");
    assert("true"@[0] == 't');
    assert("false"@[0] == 'f');
    assert("null"@[0] == 'n');
}

/// Each command asks for its own method. The commands without parameters ask for it with none.
pub proof fn law_commands_name_their_methods(c: Cmd, r: Result<(String, Json), String>)
    requires
        call_ensures(request_of, (c,), r),
    ensures
        match c {
            Cmd::Raw { method, params } => r is Ok ==> r->Ok_0.0@ == method@ && json_of_text(
                params@,
            ) == Ok::<JsonView, Seq<char>>(r->Ok_0.1.deep_view()),
            Cmd::Queue(QueueCmd::Mode { mode }) => r is Ok ==> r->Ok_0.0@ == "queue_mode_set"@,
            Cmd::Re(ReCmd::Metadata { merge }) => r is Ok ==> r->Ok_0.0@ == "re_metadata"@,
            _ => r is Ok && r->Ok_0.0@ == match c {
                Cmd::Ping => "ping"@,
                Cmd::Status => "status"@,
                Cmd::Config => "config_get"@,
                Cmd::Environment(EnvCmd::Open) => "environment_open"@,
                Cmd::Environment(EnvCmd::Close) => "environment_close"@,
                Cmd::Environment(EnvCmd::Destroy) => "environment_destroy"@,
                Cmd::Environment(EnvCmd::Update) => "environment_update"@,
                Cmd::Queue(QueueCmd::Add { .. }) => "queue_item_add"@,
                Cmd::Queue(QueueCmd::Get) => "queue_get"@,
                Cmd::Queue(QueueCmd::Remove { .. }) => "queue_item_remove"@,
                Cmd::Queue(QueueCmd::Clear) => "queue_clear"@,
                Cmd::Queue(QueueCmd::Item { .. }) => "queue_item_get"@,
                Cmd::Queue(QueueCmd::Move { .. }) => "queue_item_move"@,
                Cmd::Queue(QueueCmd::Execute { .. }) => "queue_item_execute"@,
                Cmd::Queue(QueueCmd::Start) => "queue_start"@,
                Cmd::Queue(QueueCmd::Stop) => "queue_stop"@,
                Cmd::Queue(QueueCmd::StopCancel) => "queue_stop_cancel"@,
                Cmd::Queue(QueueCmd::Autostart { .. }) => "queue_autostart"@,
                Cmd::Re(ReCmd::Pause { .. }) => "re_pause"@,
                Cmd::Re(ReCmd::Resume) => "re_resume"@,
                Cmd::Re(ReCmd::Abort) => "re_abort"@,
                Cmd::Re(ReCmd::Halt) => "re_halt"@,
                Cmd::Re(ReCmd::Stop) => "re_stop"@,
                Cmd::Re(ReCmd::Runs) => "re_runs"@,
                Cmd::Allowed(AllowedCmd::Plans) => "plans_allowed"@,
                Cmd::Allowed(AllowedCmd::PlansExisting) => "plans_existing"@,
                Cmd::Allowed(AllowedCmd::Devices) => "devices_allowed"@,
                Cmd::Allowed(AllowedCmd::DevicesExisting) => "devices_existing"@,
                Cmd::History(HistoryCmd::Get) => "history_get"@,
                Cmd::History(HistoryCmd::Clear) => "history_clear"@,
                Cmd::Lock(LockCmd::Apply { .. }) => "lock"@,
                Cmd::Lock(LockCmd::Info) => "lock_info"@,
                Cmd::Lock(LockCmd::Release { .. }) => "unlock"@,
                Cmd::Inspect { .. } => "device_inspect"@,
                _ => r->Ok_0.0@,
            },
        },
        match c {
            Cmd::Ping | Cmd::Status | Cmd::Config | Cmd::Environment(_) | Cmd::Allowed(_)
            | Cmd::History(_) | Cmd::Queue(QueueCmd::Get) | Cmd::Queue(QueueCmd::Clear)
            | Cmd::Queue(QueueCmd::Start) | Cmd::Queue(QueueCmd::Stop) | Cmd::Queue(
                QueueCmd::StopCancel,
            ) | Cmd::Re(ReCmd::Resume) | Cmd::Re(ReCmd::Abort) | Cmd::Re(ReCmd::Halt) | Cmd::Re(
                ReCmd::Stop,
            ) | Cmd::Re(ReCmd::Runs) | Cmd::Lock(LockCmd::Info) => r->Ok_0.1.deep_view()
                == JsonView::Object(seq![]),
            _ => true,
        },
{
}

/// Whether an object has exactly one member under a key, and the member is the given value.
pub open spec fn has_member(params: JsonView, key: Seq<char>, value: JsonView) -> bool {
    params matches JsonView::Object(m) && (exists|i: int|
        0 <= i < m.len() && (#[trigger] m[i]).0 == key) && forall|i: int|
        0 <= i < m.len() && (#[trigger] m[i]).0 == key ==> m[i].1 == value
}

/// The parameters of a request are what its command gives, each under its own name: the item to
/// remove, to fetch or to move, the place to move it to, the switch, the mode, the kind of pause,
/// the metadata, the device, and the parts of a lock.
pub proof fn law_requests_carry_their_parameters(c: Cmd, r: Result<(String, Json), String>)
    requires
        call_ensures(request_of, (c,), r),
    ensures
        ({
            let params = r->Ok_0.1.deep_view();
            match c {
                Cmd::Queue(QueueCmd::Remove { uid }) => has_member(
                    params,
                    "uid"@,
                    JsonView::Str(uid@),
                ),
                Cmd::Queue(QueueCmd::Item { uid }) => has_member(
                    params,
                    "uid"@,
                    JsonView::Str(uid@),
                ),
                Cmd::Queue(QueueCmd::Move { uid, pos_dest }) => {
                    &&& has_member(params, "uid"@, JsonView::Str(uid@))
                    &&& has_member(
                        params,
                        "pos_dest"@,
                        match u64_written(pos_dest@) {
                            Some(n) => JsonView::Integer(n as int),
                            None => JsonView::Str(pos_dest@),
                        },
                    )
                },
                Cmd::Queue(QueueCmd::Autostart { option }) => has_member(
                    params,
                    "enable"@,
                    JsonView::Bool(option@ == "enable"@),
                ),
                Cmd::Queue(QueueCmd::Mode { mode }) => match json_of_text(mode@) {
                    Ok(m) => r is Ok && has_member(params, "mode"@, m),
                    Err(_) => r is Err,
                },
                Cmd::Re(ReCmd::Pause { deferred }) => has_member(
                    params,
                    "option"@,
                    JsonView::Str(
                        if deferred {
                            "deferred"@
                        } else {
                            "immediate"@
                        },
                    ),
                ),
                Cmd::Re(ReCmd::Metadata { merge: Some(text) }) => match json_of_text(text@) {
                    Ok(m) => r is Ok && has_member(params, "metadata"@, m),
                    Err(_) => r is Err,
                },
                Cmd::Inspect { name } => has_member(params, "name"@, JsonView::Str(name@)),
                Cmd::Lock(LockCmd::Release { key }) => has_member(
                    params,
                    "lock_key"@,
                    JsonView::Str(key@),
                ),
                Cmd::Lock(LockCmd::Apply { key, queue, environment, note, user }) => {
                    &&& has_member(params, "lock_key"@, JsonView::Str(key@))
                    &&& has_member(params, "queue"@, JsonView::Bool(queue))
                    &&& has_member(params, "environment"@, JsonView::Bool(environment))
                    &&& has_member(
                        params,
                        "note"@,
                        match note {
                            Some(n) => JsonView::Str(n@),
                            None => JsonView::Null,
                        },
                    )
                    &&& has_member(
                        params,
                        "user"@,
                        match user {
                            Some(u) => JsonView::Str(u@),
                            None => JsonView::Null,
                        },
                    )
                },
                Cmd::Raw { method, params: p } => r is Ok <==> json_of_text(p@) is Ok,
                _ => true,
            }
        }),
{
    let m = r->Ok_0.1.deep_view()->Object_0;
    match c {
        Cmd::Queue(QueueCmd::Remove { uid }) => assert(m[0].0 == "uid"@),
        Cmd::Queue(QueueCmd::Item { uid }) => assert(m[0].0 == "uid"@),
        Cmd::Queue(QueueCmd::Move { uid, pos_dest }) => {
            reveal_strlit("uid");
            reveal_strlit("pos_dest");
            assert("uid"@.len() == 3 && "pos_dest"@.len() == 8);
            assert(m[0].0 == "uid"@ && m[1].0 == "pos_dest"@);
        },
        Cmd::Queue(QueueCmd::Autostart { option }) => assert(m[0].0 == "enable"@),
        Cmd::Queue(QueueCmd::Mode { mode }) => {
            if r is Ok {
                assert(m[0].0 == "mode"@);
            }
        },
        Cmd::Re(ReCmd::Pause { deferred }) => assert(m[0].0 == "option"@),
        Cmd::Re(ReCmd::Metadata { merge: Some(text) }) => {
            if r is Ok {
                assert(m[0].0 == "metadata"@);
            }
        },
        Cmd::Inspect { name } => assert(m[0].0 == "name"@),
        Cmd::Lock(LockCmd::Release { key }) => assert(m[0].0 == "lock_key"@),
        Cmd::Lock(LockCmd::Apply { key, queue, environment, note, user }) => {
            reveal_strlit("lock_key");
            reveal_strlit("queue");
            reveal_strlit("environment");
            reveal_strlit("note");
            reveal_strlit("user");
            assert("lock_key"@.len() == 8 && "queue"@.len() == 5 && "environment"@.len() == 11);
            assert("note"@[0] == 'n' && "user"@[0] == 'u' && "note"@.len() == 4 && "user"@.len()
                == 4);
            assert(m[0].0 == "lock_key"@ && m[1].0 == "queue"@ && m[2].0 == "environment"@);
            assert(m[3].0 == "note"@ && m[4].0 == "user"@);
        },
        _ => {},
    }
}

/// The request that is sent is the bytes of an object with the protocol's version, the method, the
/// parameters and an id.
pub proof fn law_request_is_an_rpc_call(method: String, params: Json, j: Json)
    requires
        call_ensures(rpc, (method, params), j),
    ensures
        j.deep_view() matches JsonView::Object(m) && m.len() == 4,
        has_member(j.deep_view(), "jsonrpc"@, JsonView::Str("2.0"@)),
        has_member(j.deep_view(), "method"@, JsonView::Str(method@)),
        has_member(j.deep_view(), "params"@, params.deep_view()),
        has_member(j.deep_view(), "id"@, JsonView::Integer(1)),
{
    let m = j.deep_view()->Object_0;
    reveal_strlit("jsonrpc");
    reveal_strlit("method");
    reveal_strlit("params");
    reveal_strlit("id");
    assert("jsonrpc"@.len() == 7 && "method"@.len() == 6 && "params"@.len() == 6 && "id"@.len()
        == 2);
    assert("method"@[0] == 'm' && "params"@[0] == 'p');
    assert(m[0].0 == "jsonrpc"@ && m[1].0 == "method"@ && m[2].0 == "params"@ && m[3].0 == "id"@);
}

/// A response is its result; one with an error is refused with the code and the message of the
/// error; one with neither is taken as it is.
pub proof fn law_response_is_its_result(
    members: Seq<(Seq<char>, JsonView)>,
    value: Json,
    r: Result<Json, String>,
)
    requires
        value.deep_view() == JsonView::Object(members),
        call_ensures(response_of, (value,), r),
    ensures
        (exists|i: int| 0 <= i < members.len() && (#[trigger] members[i]).0 == "error"@) <==> r
            is Err,
        forall|v: JsonView|
            r is Ok && #[trigger] has_member(value.deep_view(), "result"@, v)
                ==> r->Ok_0.deep_view() == v,
        r is Ok && (forall|i: int|
            0 <= i < members.len() ==> (#[trigger] members[i]).0 != "result"@)
            ==> r->Ok_0.deep_view() == value.deep_view(),
{
    assert forall|v: JsonView|
        r is Ok && #[trigger] has_member(value.deep_view(), "result"@, v) implies
        r->Ok_0.deep_view() == v by {
        law_member_is_the_first(value.deep_view(), "result"@);
    }
}

/// What is sent for a command is the encoding of its call: the request of the command, as the
/// protocol frames it.
pub proof fn law_command_is_sent_as_its_call(
    c: Cmd,
    call: Result<(String, Json), String>,
    framed: Json,
    r: Result<Vec<u8>, String>,
)
    requires
        call_ensures(request_of, (c,), call),
        call is Ok ==> call_ensures(rpc, (call->Ok_0.0, call->Ok_0.1), framed),
        call_ensures(build_request, (c,), r),
    ensures
        call is Err ==> r is Err && r->Err_0@ == call->Err_0@,
        call is Ok ==> (match json_to_bytes(framed.deep_view()) {
            Ok(b) => r is Ok && r->Ok_0@ == b,
            Err(_) => r is Err,
        }),
{
}

/// The positional arguments become an array with one value for each, in order.
pub proof fn law_arguments_keep_their_order(args: &Vec<Arg>, j: Json, i: int, v: Json)
    requires
        call_ensures(parse_positional_args, (args,), j),
        0 <= i < args@.len(),
        call_ensures(parse_one, (&args@[i],), v),
    ensures
        j.deep_view() matches JsonView::Array(a) && a.len() == args@.len() && a[i] == v.deep_view(),
{
}

/// What was received is read as the response that its bytes hold.
pub proof fn law_response_is_read_from_its_bytes(
    bytes: &Vec<u8>,
    r: Result<Json, String>,
    value: Json,
    o: Result<Json, String>,
)
    requires
        call_ensures(read_response, (bytes,), r),
        call_ensures(response_of, (value,), o),
    ensures
        json_of_bytes(bytes@) is Err ==> r is Err,
        json_of_bytes(bytes@) == Ok::<JsonView, Seq<char>>(value.deep_view()) ==> (r is Ok <==> o
            is Ok) && (r is Ok ==> r->Ok_0.deep_view() == o->Ok_0.deep_view()) && (r is Err
            ==> r->Err_0@ == o->Err_0@),
{
}

} // verus!
