//! Scripts that are evaluated for remote callers.

use vstd::prelude::*;
use vstd::string::*;

use crate::lua_device::{player, LuaDevice, Role};
use crate::lua_value::{json_result, LuaVal};
use crate::msg::{bool_text, show_bool, ObjRef};
use crate::text::{
    dec_i64, decimal, join2, join_all, joined, law_joined_parts_follow_each_other, signed_decimal,
    texts,
};
use crate::value::{double_json, Json, JsonView};

verus! {

/// What an evaluation gives.
#[derive(Debug)]
pub struct EvalResult {
    /// What was printed, line by line.
    pub stdout: String,
    /// The value, as it is shown.
    pub return_value: Option<String>,
    /// The error.
    pub error: Option<String>,
}

/// Whether `r` is an evaluation that failed before anything was printed.
pub open spec fn failed_with(r: EvalResult, error: Seq<char>) -> bool {
    &&& r.stdout@ == Seq::<char>::empty()
    &&& r.return_value is None
    &&& r.error matches Some(e)
    &&& e@ == error
}

/// An evaluation that failed before anything was printed.
fn failure(error: String) -> (r: EvalResult)
    ensures
        failed_with(r, error@),
{
    EvalResult { stdout: String::new(), return_value: None, error: Some(error) }
}

/// What an evaluation needs before it can start.
#[derive(Debug)]
pub enum EvalStart {
    /// Nothing: the state of the scripts stands.
    Ready,
    /// The state of the scripts has to be built around the engine.
    Build,
    /// It cannot start.
    Refuse(EvalResult),
}

/// What an evaluation needs, given whether the state of the scripts stands and whether an engine
/// is open. A state that stands is used on, also without an engine.
pub fn eval_start(have_state: bool, engine_open: bool) -> (s: EvalStart)
    ensures
        match s {
            EvalStart::Ready => have_state,
            EvalStart::Build => !have_state && engine_open,
            EvalStart::Refuse(r) => !have_state && !engine_open && failed_with(
                r,
                "lua_eval: environment not open. Call environment_open first."@,
            ),
        },
{
    if have_state {
        EvalStart::Ready
    } else if engine_open {
        EvalStart::Build
    } else {
        EvalStart::Refuse(
            failure("lua_eval: environment not open. Call environment_open first.".to_owned()),
        )
    }
}

/// What can go wrong around an evaluation.
#[derive(Debug)]
pub enum EvalFault {
    /// The state of the scripts could not be built.
    Build(String),
    /// The state of the scripts was gone.
    Vanished,
    /// The task of the evaluation broke off.
    Join(String),
    /// The function that captures what is printed could not be made.
    CreatePrint(String),
    /// The function that captures what is printed could not be installed.
    InstallPrint(String),
}

/// The text of a fault.
pub open spec fn fault_text(f: EvalFault) -> Seq<char> {
    match f {
        EvalFault::Build(e) => "lua_eval: build state: "@ + e@,
        EvalFault::Vanished => "lua_eval: state vanished between init and eval"@,
        EvalFault::Join(e) => "lua_eval task join: "@ + e@,
        EvalFault::CreatePrint(e) => "create capture print: "@ + e@,
        EvalFault::InstallPrint(e) => "install capture print: "@ + e@,
    }
}

/// What an evaluation gives that meets with a fault.
pub fn eval_fault(f: EvalFault) -> (r: EvalResult)
    ensures
        failed_with(r, fault_text(f)),
{
    failure(
        match f {
            EvalFault::Build(e) => join2("lua_eval: build state: ", &e),
            EvalFault::Vanished => "lua_eval: state vanished between init and eval".to_owned(),
            EvalFault::Join(e) => join2("lua_eval task join: ", &e),
            EvalFault::CreatePrint(e) => join2("create capture print: ", &e),
            EvalFault::InstallPrint(e) => join2("install capture print: ", &e),
        },
    )
}

/// A value together with how the host shows it in full.
#[derive(Debug)]
pub struct Shown {
    /// The value.
    pub value: LuaVal,
    /// How the host shows it.
    pub full: String,
}

/// How a value is written: numbers, truth values and text plainly, anything else in full.
pub open spec fn value_text(v: LuaVal, full: Seq<char>) -> Seq<char> {
    match v {
        LuaVal::Nil => "nil"@,
        LuaVal::Boolean(b) => bool_text(b),
        LuaVal::Integer(i) => signed_decimal(i as int),
        LuaVal::Number(n) => n.shown@,
        LuaVal::Str(s) => s@,
        LuaVal::Bytes(_) => ""@,
        _ => full,
    }
}

/// How a value is written.
pub fn value_to_string(v: &Shown) -> (s: String)
    ensures
        s@ == value_text(v.value, v.full@),
{
    match &v.value {
        LuaVal::Nil => "nil".to_owned(),
        LuaVal::Boolean(b) => show_bool(*b).to_owned(),
        LuaVal::Integer(i) => dec_i64(*i),
        LuaVal::Number(n) => n.shown.clone(),
        LuaVal::Str(s) => s.clone(),
        LuaVal::Bytes(_) => "".to_owned(),
        _ => v.full.clone(),
    }
}

/// The texts of several values.
pub open spec fn value_texts(values: Seq<Shown>) -> Seq<Seq<char>> {
    values.map_values(|v: Shown| value_text(v.value, v.full@))
}

/// The line that a call of `print` adds to what was printed, with tabs between the values.
pub fn captured_line(values: &Vec<Shown>) -> (s: String)
    ensures
        s@ == joined(value_texts(values@), "\t"@),
{
    let mut parts: Vec<String> = Vec::new();
    let mut i: usize = 0;
    while i < values.len()
        invariant
            i <= values.len(),
            parts@.len() == i,
            forall|k: int| 0 <= k < i ==> (#[trigger] parts@[k])@ == value_texts(values@)[k],
        decreases values.len() - i,
    {
        parts.push(value_to_string(&values[i]));
        i += 1;
    }
    assert(texts(parts@) =~= value_texts(values@));
    join_all(&parts, "\t")
}

/// The chunk that is tried first: the source as an expression.
pub fn as_expression(source: &str) -> (s: String)
    ensures
        s@ == "return "@ + source@,
{
    join2("return ", source)
}

/// What the two tries of a chunk came to.
#[derive(Debug)]
pub enum ChunkOutcome {
    /// As an expression it gave a value.
    Expression(Shown),
    /// As statements it gave values.
    Statements(Vec<Shown>),
    /// As statements it failed.
    Failed(String),
}

/// What an evaluation gives, out of the lines that were printed and what the chunk came to.
pub open spec fn evaluated(lines: Seq<Seq<char>>, outcome: ChunkOutcome, r: EvalResult) -> bool {
    &&& r.stdout@ == joined(lines, "\n"@)
    &&& match outcome {
        ChunkOutcome::Expression(v) => {
            &&& r.error is None
            &&& r.return_value matches Some(s)
            &&& s@ == value_text(v.value, v.full@)
        },
        ChunkOutcome::Statements(vs) => {
            &&& r.error is None
            &&& r.return_value.deep_view() == if vs@.len() > 0 {
                Some(value_text(vs@[0].value, vs@[0].full@))
            } else {
                None
            }
        },
        ChunkOutcome::Failed(e) => {
            &&& r.return_value is None
            &&& r.error == Some(e)
        },
    }
}

/// What an evaluation gives.
pub fn eval_result(lines: &Vec<String>, outcome: ChunkOutcome) -> (r: EvalResult)
    ensures
        evaluated(texts(lines@), outcome, r),
{
    let stdout = join_all(lines, "\n");
    match outcome {
        ChunkOutcome::Expression(v) => EvalResult {
            stdout,
            return_value: Some(value_to_string(&v)),
            error: None,
        },
        ChunkOutcome::Statements(vs) => EvalResult {
            stdout,
            return_value: if vs.len() > 0 {
                Some(value_to_string(&vs[0]))
            } else {
                None
            },
            error: None,
        },
        ChunkOutcome::Failed(e) => EvalResult { stdout, return_value: None, error: Some(e) },
    }
}

/// The objects that a registry knows for a device.
#[derive(Debug)]
pub struct RegisteredRoles {
    /// Plays `readable`.
    pub readable: Option<ObjRef>,
    /// Plays `movable`.
    pub movable: Option<ObjRef>,
    /// Plays `triggerable`.
    pub triggerable: Option<ObjRef>,
    /// Plays `stageable`.
    pub stageable: Option<ObjRef>,
    /// Plays `flyable`.
    pub flyable: Option<ObjRef>,
    /// Plays `collectable`.
    pub collectable: Option<ObjRef>,
}

/// The object that a registry knows for a role.
pub open spec fn registered(roles: RegisteredRoles, r: Role) -> Option<ObjRef> {
    match r {
        Role::Readable => roles.readable,
        Role::Movable => roles.movable,
        Role::Triggerable => roles.triggerable,
        Role::Stageable => roles.stageable,
        Role::Flyable => roles.flyable,
        Role::Collectable => roles.collectable,
        _ => None,
    }
}

/// The device that scripts see for a registered device: it plays the roles that the registry
/// keeps, and no others.
pub fn published_device(name: &str, roles: RegisteredRoles) -> (d: LuaDevice)
    ensures
        d.name@ == name@,
        forall|r: Role| #[trigger] player(d, r) == registered(roles, r),
{
    LuaDevice {
        name: name.to_owned(),
        readable: roles.readable,
        movable: roles.movable,
        locatable: None,
        stoppable: None,
        triggerable: roles.triggerable,
        stageable: roles.stageable,
        monitorable: None,
        flyable: roles.flyable,
        preparable: None,
        configurable: None,
        collectable: roles.collectable,
        pausable: None,
    }
}

/// The JSON form of an argument of a custom method: a scalar, or a complaint.
pub open spec fn method_arg(v: LuaVal, full: Seq<char>) -> Result<JsonView, Seq<char>> {
    match v {
        LuaVal::Nil => Ok(JsonView::Null),
        LuaVal::Boolean(b) => Ok(JsonView::Bool(b)),
        LuaVal::Integer(i) => Ok(JsonView::Integer(i as int)),
        LuaVal::Number(n) => Ok(double_json(n.value)),
        LuaVal::Str(s) => Ok(JsonView::Str(s@)),
        LuaVal::Bytes(_) => Ok(JsonView::Str(""@)),
        _ => Err("lua_method: unsupported arg type: "@ + full),
    }
}

/// The JSON form of an argument of a custom method.
pub fn method_arg_to_json(v: &Shown) -> (j: Result<Json, String>)
    ensures
        json_result(j) == method_arg(v.value, v.full@),
{
    match &v.value {
        LuaVal::Nil => Ok(Json::Null),
        LuaVal::Boolean(b) => Ok(Json::Bool(*b)),
        LuaVal::Integer(i) => Ok(Json::Int(*i)),
        LuaVal::Number(n) => Ok(n.value.into_json()),
        LuaVal::Str(s) => Ok(Json::Str(s.clone())),
        LuaVal::Bytes(_) => Ok(Json::Str("".to_owned())),
        _ => Err(join2("lua_method: unsupported arg type: ", &v.full)),
    }
}

/// The JSON forms of the arguments of a custom method, or the first complaint.
pub open spec fn method_args_of(values: Seq<Shown>) -> Result<Seq<JsonView>, Seq<char>>
    decreases values.len(),
{
    if values.len() == 0 {
        Ok(seq![])
    } else {
        match method_args_of(values.drop_last()) {
            Err(e) => Err(e),
            Ok(a) => match method_arg(values.last().value, values.last().full@) {
                Err(e) => Err(e),
                Ok(j) => Ok(a.push(j)),
            },
        }
    }
}

/// What fails on the first `n` arguments fails alike on all of them.
proof fn lemma_args_fail(values: Seq<Shown>, n: int)
    requires
        0 <= n <= values.len(),
        method_args_of(values.take(n)) is Err,
    ensures
        method_args_of(values) == method_args_of(values.take(n)),
    decreases values.len() - n,
{
    if n == values.len() {
        assert(values.take(n) =~= values);
    } else {
        assert(values.take(n + 1).drop_last() =~= values.take(n));
        lemma_args_fail(values, n + 1);
    }
}

/// The arguments that a custom method is given: all but the first, which is the device itself.
pub fn method_args(values: &Vec<Shown>) -> (r: Result<Vec<Json>, String>)
    ensures
        ({
            let given = if values@.len() == 0 {
                values@
            } else {
                values@.skip(1)
            };
            match method_args_of(given) {
                Ok(a) => r matches Ok(v) && crate::lua_value::jsons_view(v@) == a,
                Err(e) => r matches Err(s) && s@ == e,
            }
        }),
{
    let ghost given = if values@.len() == 0 {
        values@
    } else {
        values@.skip(1)
    };
    let mut out: Vec<Json> = Vec::new();
    let mut i: usize = 1;
    assert(given.take(0) =~= seq![]);
    assert(crate::lua_value::jsons_view(out@) =~= seq![]);
    while i < values.len()
        invariant
            1 <= i,
            i <= values.len() || values.len() == 0,
            given == if values@.len() == 0 {
                values@
            } else {
                values@.skip(1)
            },
            values.len() > 0 ==> method_args_of(given.take(i - 1)) == Ok::<
                Seq<JsonView>,
                Seq<char>,
            >(crate::lua_value::jsons_view(out@)),
            values.len() == 0 ==> crate::lua_value::jsons_view(out@) == Seq::<JsonView>::empty(),
        decreases values.len() - i,
    {
        proof {
            assert(given.take(i as int).drop_last() =~= given.take(i - 1));
            assert(given.take(i as int).last() == values@[i as int]);
        }
        match method_arg_to_json(&values[i]) {
            Ok(j) => {
                let ghost before = crate::lua_value::jsons_view(out@);
                out.push(j);
                assert(crate::lua_value::jsons_view(out@) =~= before.push(j.deep_view()));
            },
            Err(e) => {
                proof {
                    lemma_args_fail(given, i as int);
                }
                return Err(e);
            },
        }
        i += 1;
    }
    assert(given.take(given.len() as int) =~= given);
    Ok(out)
}

/// An evaluation tells what its chunk came to: an expression gives its own value, statements give
/// the first of their values or none, and a failure gives its text and no value. All that was
/// printed is kept in any case.
pub proof fn law_evaluation_tells_its_outcome(
    lines: &Vec<String>,
    outcome: ChunkOutcome,
    r: EvalResult,
    shown: Shown,
    text: String,
)
    requires
        call_ensures(eval_result, (lines, outcome), r),
        call_ensures(value_to_string, (&shown,), text),
    ensures
        lines@.len() == 0 ==> r.stdout@ == Seq::<char>::empty(),
        lines@.len() == 1 ==> r.stdout@ == lines@[0]@,
        outcome == ChunkOutcome::Expression(shown) ==> r.error is None && (r.return_value matches
            Some(s) && s@ == text@),
        match outcome {
            ChunkOutcome::Statements(vs) => r.error is None && (r.return_value is None <==> vs@.len()
                == 0) && (vs@.len() > 0 && vs@[0] == shown ==> (r.return_value matches Some(s) && s@
                == text@)),
            ChunkOutcome::Failed(e) => r.error == Some(e) && r.return_value is None,
            ChunkOutcome::Expression(_) => true,
        },
{
}

/// The lines that were printed are kept in order, with a line break between one and the next.
pub proof fn law_printed_lines_are_kept(
    a: &Vec<String>,
    b: &Vec<String>,
    both: &Vec<String>,
    outcome: ChunkOutcome,
    ra: EvalResult,
    rb: EvalResult,
    r: EvalResult,
)
    requires
        a@.len() > 0,
        b@.len() > 0,
        both@ == a@ + b@,
        call_ensures(eval_result, (a, outcome), ra),
        call_ensures(eval_result, (b, outcome), rb),
        call_ensures(eval_result, (both, outcome), r),
    ensures
        r.stdout@ == ra.stdout@ + "\n"@ + rb.stdout@,
{
    law_joined_parts_follow_each_other(texts(a@), texts(b@), seq![], "\n"@);
    assert(texts(both@) =~= texts(a@) + texts(b@));
}

/// Scripts see of a value what it is: text as it stands, whole numbers in digits, truth values by
/// name, floating-point numbers and everything else as the host shows them.
pub proof fn law_values_are_shown(v: Shown, s: String)
    requires
        call_ensures(value_to_string, (&v,), s),
    ensures
        match v.value {
            LuaVal::Nil => s@ == "nil"@,
            LuaVal::Boolean(b) => s@ == if b {
                "true"@
            } else {
                "false"@
            },
            LuaVal::Integer(i) => i >= 0 ==> s@ == decimal(i as nat),
            LuaVal::Number(n) => s@ == n.shown@,
            LuaVal::Str(t) => s@ == t@,
            LuaVal::Bytes(_) => s@ == ""@,
            _ => s@ == v.full@,
        },
{
}

/// A published device plays exactly the roles that were registered for it, each by the object
/// that was registered.
pub proof fn law_published_device_plays_its_roles(name: &str, roles: RegisteredRoles, d: LuaDevice)
    requires
        call_ensures(published_device, (name, roles), d),
    ensures
        d.name@ == name@,
        d.readable == roles.readable,
        d.movable == roles.movable,
        d.triggerable == roles.triggerable,
        d.stageable == roles.stageable,
        d.flyable == roles.flyable,
        d.collectable == roles.collectable,
        d.locatable is None && d.stoppable is None && d.monitorable is None && d.preparable is None
            && d.configurable is None && d.pausable is None,
{
    assert(player(d, Role::Readable) == registered(roles, Role::Readable));
    assert(player(d, Role::Movable) == registered(roles, Role::Movable));
    assert(player(d, Role::Triggerable) == registered(roles, Role::Triggerable));
    assert(player(d, Role::Stageable) == registered(roles, Role::Stageable));
    assert(player(d, Role::Flyable) == registered(roles, Role::Flyable));
    assert(player(d, Role::Collectable) == registered(roles, Role::Collectable));
    assert(player(d, Role::Locatable) == registered(roles, Role::Locatable));
    assert(player(d, Role::Stoppable) == registered(roles, Role::Stoppable));
    assert(player(d, Role::Monitorable) == registered(roles, Role::Monitorable));
    assert(player(d, Role::Preparable) == registered(roles, Role::Preparable));
    assert(player(d, Role::Configurable) == registered(roles, Role::Configurable));
    assert(player(d, Role::Pausable) == registered(roles, Role::Pausable));
}

/// A custom method is given every argument after the device, in order: text, whole numbers and
/// truth values as they are, and nothing as null. It is given none where one of them is no scalar.
pub proof fn law_method_gets_its_arguments(values: &Vec<Shown>, r: Result<Vec<Json>, String>)
    requires
        call_ensures(method_args, (values,), r),
    ensures
        match r {
            Ok(a) => {
                &&& a@.len() == if values@.len() == 0 {
                    0
                } else {
                    values@.len() - 1
                }
                &&& forall|i: int|
                    1 <= i < values@.len() ==> (match (#[trigger] values@[i]).value {
                        LuaVal::Nil => a@[i - 1].deep_view() == JsonView::Null,
                        LuaVal::Boolean(b) => a@[i - 1].deep_view() == JsonView::Bool(b),
                        LuaVal::Integer(n) => a@[i - 1].deep_view() == JsonView::Integer(n as int),
                        LuaVal::Number(n) => a@[i - 1].deep_view() == double_json(n.value),
                        LuaVal::Str(s) => a@[i - 1].deep_view() == JsonView::Str(s@),
                        LuaVal::Bytes(_) => a@[i - 1].deep_view() == JsonView::Str(""@),
                        _ => false,
                    })
            },
            Err(_) => exists|i: int|
                1 <= i < values@.len() && (match (#[trigger] values@[i]).value {
                    LuaVal::Nil
                    | LuaVal::Boolean(_)
                    | LuaVal::Integer(_)
                    | LuaVal::Number(_)
                    | LuaVal::Str(_)
                    | LuaVal::Bytes(_) => false,
                    _ => true,
                }),
        },
{
    let given = if values@.len() == 0 {
        values@
    } else {
        values@.skip(1)
    };
    let bad = lemma_method_args(given);
    match r {
        Ok(a) => {
            assert forall|i: int| 1 <= i < values@.len() implies method_arg(
                (#[trigger] values@[i]).value,
                values@[i].full@,
            ) == Ok::<JsonView, Seq<char>>(a@[i - 1].deep_view()) by {
                assert(given[i - 1] == values@[i]);
                assert(crate::lua_value::jsons_view(a@)[i - 1] == a@[i - 1].deep_view());
            }
        },
        Err(_) => {
            assert(given[bad] == values@[bad + 1]);
        },
    }
}

/// The arguments are given one by one, or one of them cannot be given.
proof fn lemma_method_args(values: Seq<Shown>) -> (bad: int)
    ensures
        match method_args_of(values) {
            Ok(a) => a.len() == values.len() && forall|i: int|
                0 <= i < values.len() ==> method_arg(
                    (#[trigger] values[i]).value,
                    values[i].full@,
                ) == Ok::<JsonView, Seq<char>>(a[i]),
            Err(e) => 0 <= bad < values.len() && method_arg(values[bad].value, values[bad].full@)
                == Err::<JsonView, Seq<char>>(e),
        },
    decreases values.len(),
{
    if values.len() == 0 {
        0
    } else {
        let rest = values.drop_last();
        let bad = lemma_method_args(rest);
        match method_args_of(rest) {
            Ok(a) => {
                assert forall|i: int| 0 <= i < rest.len() implies rest[i]
                    == #[trigger] values[i] by {}
                values.len() - 1
            },
            Err(_) => bad,
        }
    }
}

/// A state that stands is used, and one is built only around an open engine.
pub proof fn law_evaluation_needs_a_state(have_state: bool, engine_open: bool, s: EvalStart)
    requires
        call_ensures(eval_start, (have_state, engine_open), s),
    ensures
        s is Ready <==> have_state,
        s is Build <==> !have_state && engine_open,
        match s {
            EvalStart::Refuse(r) => r.error is Some && r.return_value is None && r.stdout@.len()
                == 0,
            _ => true,
        },
{
}

} // verus!
