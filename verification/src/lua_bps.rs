//! The plans of the `bps` namespace, and those that stand outside of any namespace.

use vstd::prelude::*;
use vstd::string::*;

use crate::error::Span;
use crate::lua_device::{not_playing, player, LuaDevice, Role};
use crate::lua_msg::{lua_map, lua_table_to_metadata, text_or, MetaTable};
use crate::lua_plan::{
    all_playing, args_view, both_of, both_playing, devs_of, law_devices_give_their_objects,
    lemma_args, number_label, numbered, players, plays, wanted, wish, ArgView, PlanArg, PlanFn, PlanRequest, PlanWish,
};
use crate::lua_value::{pairs_view, LuaVal};
use crate::msg::ObjRef;
use crate::text::{join2, join3};
use crate::value::{Double, JsonView};

verus! {

/// A call of a function of the `bps` namespace.
#[derive(Debug)]
pub enum BpsCall {
    /// `open_run(md)`.
    OpenRun(Option<MetaTable>),
    /// `close_run(exit_status, reason)`.
    CloseRun(Option<String>, Option<String>),
    /// `create(stream)`.
    Create(Option<String>),
    /// `save()`.
    Save,
    /// `drop()`.
    Drop,
    /// `read(device)`.
    Read(LuaDevice),
    /// `null()`.
    Null,
    /// `abs_set(device, value, group)`.
    AbsSet(LuaDevice, Double, Option<String>),
    /// `mv(device, value)`.
    Mv(LuaDevice, Double),
    /// `mvr(device, delta)`.
    Mvr(LuaDevice, Double),
    /// `trigger(device, group)`.
    Trigger(LuaDevice, Option<String>),
    /// `stop_dev(device)`.
    StopDev(LuaDevice),
    /// `sleep(seconds)`.
    Sleep(Span),
    /// `wait(group, timeout)`.
    Wait(String, Option<Span>),
    /// `checkpoint()`.
    Checkpoint,
    /// `clear_checkpoint()`.
    ClearCheckpoint,
    /// `pause()`.
    Pause,
    /// `deferred_pause()`.
    DeferredPause,
    /// `resume()`.
    Resume,
    /// `kickoff(device, group)`.
    Kickoff(LuaDevice, Option<String>),
    /// `complete(device, group)`.
    Complete(LuaDevice, Option<String>),
    /// `stage(device)`.
    Stage(LuaDevice),
    /// `unstage(device)`.
    Unstage(LuaDevice),
    /// `stage_all(devices)`.
    StageAll(Vec<LuaDevice>),
    /// `unstage_all(devices)`.
    UnstageAll(Vec<LuaDevice>),
    /// `monitor(device, stream)`.
    Monitor(LuaDevice, Option<String>),
    /// `unmonitor(device)`.
    Unmonitor(LuaDevice),
    /// `trigger_and_read(devices, stream)`.
    TriggerAndRead(Vec<LuaDevice>, Option<String>),
    /// `one_shot(devices)`.
    OneShot(Vec<LuaDevice>),
    /// `repeater(n, f)`, once the `n` plans that `f` made have been taken out.
    Repeater(Vec<u64>),
}

/// The metadata that a table gives, or what the script is told.
pub open spec fn meta_arg(t: Option<MetaTable>) -> Result<ArgView, Seq<char>> {
    match t {
        None => Ok(ArgView::Metadata(None, None, Map::empty())),
        Some(t) => match lua_map(pairs_view(t.pairs@), true) {
            Ok(m) => Ok(ArgView::Metadata(t.plan_name.deep_view(), t.scan_id, m)),
            Err(e) => Err(e),
        },
    }
}

/// A plan with metadata among its arguments.
pub open spec fn with_meta(
    function: PlanFn,
    label: Seq<char>,
    before: Seq<ArgView>,
    t: Option<MetaTable>,
) -> Result<PlanWish, Seq<char>> {
    match meta_arg(t) {
        Ok(a) => wanted(function, label, before.push(a)),
        Err(e) => Err(e),
    }
}

/// A plan whose first argument is the object that plays a role.
pub open spec fn with_player(
    function: PlanFn,
    label: Seq<char>,
    d: LuaDevice,
    role: Role,
    rest: Seq<ArgView>,
) -> Result<PlanWish, Seq<char>> {
    match player(d, role) {
        Some(o) => wanted(function, label, seq![ArgView::Object(o)] + rest),
        None => Err(not_playing(d, role)),
    }
}

/// The objects that are triggered and those that are read, or what the script is told where a
/// device cannot be triggered or cannot be read.
pub open spec fn split_playing(devs: Seq<LuaDevice>) -> Result<
    (Seq<ObjRef>, Seq<ObjRef>),
    Seq<char>,
>
    decreases devs.len(),
{
    if devs.len() == 0 {
        Ok((seq![], seq![]))
    } else {
        match split_playing(devs.drop_last()) {
            Err(e) => Err(e),
            Ok((t, r)) => match both_playing(devs.last(), Role::Triggerable, Role::Readable) {
                Err(e) => Err(e),
                Ok((a, b)) => Ok((t.push(a), r.push(b))),
            },
        }
    }
}

/// What fails on the first `n` devices fails alike on all of them.
proof fn lemma_split_fails(devs: Seq<LuaDevice>, n: int)
    requires
        0 <= n <= devs.len(),
        split_playing(devs.take(n)) is Err,
    ensures
        split_playing(devs) == split_playing(devs.take(n)),
    decreases devs.len() - n,
{
    if n == devs.len() {
        assert(devs.take(n) =~= devs);
    } else {
        assert(devs.take(n + 1).drop_last() =~= devs.take(n));
        lemma_split_fails(devs, n + 1);
    }
}

/// Finds the objects that are triggered and those that are read.
pub fn split_trig_read(devs: &Vec<LuaDevice>) -> (r: Result<(Vec<ObjRef>, Vec<ObjRef>), String>)
    ensures
        match split_playing(devs@) {
            Ok((t, x)) => r matches Ok(p) && p.0@ == t && p.1@ == x,
            Err(e) => r matches Err(s) && s@ == e,
        },
{
    let mut trigs: Vec<ObjRef> = Vec::new();
    let mut reads: Vec<ObjRef> = Vec::new();
    let mut i: usize = 0;
    assert(devs@.take(0) =~= seq![]);
    while i < devs.len()
        invariant
            i <= devs.len(),
            split_playing(devs@.take(i as int)) == Ok::<(Seq<ObjRef>, Seq<ObjRef>), Seq<char>>(
                (trigs@, reads@),
            ),
        decreases devs.len() - i,
    {
        proof {
            assert(devs@.take(i + 1).drop_last() =~= devs@.take(i as int));
        }
        match both_of(&devs[i], Role::Triggerable, Role::Readable) {
            Ok((t, x)) => {
                trigs.push(t);
                reads.push(x);
            },
            Err(e) => {
                proof {
                    lemma_split_fails(devs@, i + 1);
                }
                return Err(e);
            },
        }
        i += 1;
    }
    assert(devs@.take(devs@.len() as int) =~= devs@);
    Ok((trigs, reads))
}

/// The plan that a call asks for, or what the script is told instead.
pub open spec fn bps_wish(call: BpsCall) -> Result<PlanWish, Seq<char>> {
    match call {
        BpsCall::OpenRun(t) => with_meta(PlanFn::OpenRun, "open_run"@, seq![], t),
        BpsCall::CloseRun(es, reason) => wanted(
            PlanFn::CloseRun,
            "close_run"@,
            seq![
                ArgView::Text(text_or(es, "success"@)),
                ArgView::OptText(reason.deep_view()),
            ],
        ),
        BpsCall::Create(name) => wanted(
            PlanFn::Create,
            "create"@,
            seq![ArgView::Text(text_or(name, "primary"@))],
        ),
        BpsCall::Save => wanted(PlanFn::Save, "save"@, seq![]),
        BpsCall::Drop => wanted(PlanFn::DropBundle, "drop"@, seq![]),
        BpsCall::Read(d) => with_player(PlanFn::Read, "read"@, d, Role::Readable, seq![]),
        BpsCall::Null => wanted(PlanFn::Null, "null"@, seq![]),
        BpsCall::AbsSet(d, v, group) => with_player(
            PlanFn::AbsSet,
            "abs_set"@,
            d,
            Role::Movable,
            seq![ArgView::Number(v), ArgView::OptText(group.deep_view())],
        ),
        BpsCall::Mv(d, v) => with_player(
            PlanFn::Mv,
            "mv"@,
            d,
            Role::Movable,
            seq![ArgView::Number(v)],
        ),
        BpsCall::Mvr(d, v) => with_player(
            PlanFn::Mvr,
            "mvr"@,
            d,
            Role::Locatable,
            seq![ArgView::Number(v)],
        ),
        BpsCall::Trigger(d, group) => with_player(
            PlanFn::Trigger,
            "trigger"@,
            d,
            Role::Triggerable,
            seq![ArgView::OptText(group.deep_view())],
        ),
        BpsCall::StopDev(d) => with_player(PlanFn::Stop, "stop"@, d, Role::Stoppable, seq![]),
        BpsCall::Sleep(t) => wanted(PlanFn::Sleep, "sleep"@, seq![ArgView::Time(t)]),
        BpsCall::Wait(group, t) => wanted(
            PlanFn::Wait,
            "wait"@,
            seq![ArgView::Text(group@), ArgView::OptTime(t)],
        ),
        BpsCall::Checkpoint => wanted(PlanFn::Checkpoint, "checkpoint"@, seq![]),
        BpsCall::ClearCheckpoint => wanted(PlanFn::ClearCheckpoint, "clear_checkpoint"@, seq![]),
        BpsCall::Pause => wanted(PlanFn::Pause, "pause"@, seq![]),
        BpsCall::DeferredPause => wanted(PlanFn::DeferredPause, "deferred_pause"@, seq![]),
        BpsCall::Resume => wanted(PlanFn::Resume, "resume"@, seq![]),
        BpsCall::Kickoff(d, group) => with_player(
            PlanFn::Kickoff,
            "kickoff"@,
            d,
            Role::Flyable,
            seq![ArgView::OptText(group.deep_view())],
        ),
        BpsCall::Complete(d, group) => with_player(
            PlanFn::Complete,
            "complete"@,
            d,
            Role::Flyable,
            seq![ArgView::OptText(group.deep_view())],
        ),
        BpsCall::Stage(d) => with_player(PlanFn::Stage, "stage"@, d, Role::Stageable, seq![]),
        BpsCall::Unstage(d) => with_player(PlanFn::Unstage, "unstage"@, d, Role::Stageable, seq![]),
        BpsCall::StageAll(devs) => match all_playing(devs@, Role::Stageable) {
            Ok(v) => wanted(PlanFn::StageAll, "stage_all"@, seq![ArgView::Objects(v)]),
            Err(e) => Err(e),
        },
        BpsCall::UnstageAll(devs) => match all_playing(devs@, Role::Stageable) {
            Ok(v) => wanted(PlanFn::UnstageAll, "unstage_all"@, seq![ArgView::Objects(v)]),
            Err(e) => Err(e),
        },
        BpsCall::Monitor(d, name) => with_player(
            PlanFn::Monitor,
            "monitor"@,
            d,
            Role::Monitorable,
            seq![ArgView::OptText(name.deep_view())],
        ),
        BpsCall::Unmonitor(d) => with_player(
            PlanFn::Unmonitor,
            "unmonitor"@,
            d,
            Role::Monitorable,
            seq![],
        ),
        BpsCall::TriggerAndRead(devs, name) => match split_playing(devs@) {
            Ok((t, r)) => wanted(
                PlanFn::TriggerAndRead,
                "trigger_and_read"@,
                seq![
                    ArgView::Objects(t),
                    ArgView::Objects(r),
                    ArgView::Text(text_or(name, "primary"@)),
                ],
            ),
            Err(e) => Err(e),
        },
        BpsCall::OneShot(devs) => match split_playing(devs@) {
            Ok((t, r)) => wanted(
                PlanFn::OneShot,
                "one_shot"@,
                seq![ArgView::Objects(t), ArgView::Objects(r)],
            ),
            Err(e) => Err(e),
        },
        BpsCall::Repeater(plans) => wanted(
            PlanFn::Pchain,
            numbered("repeater"@, plans@.len() as u64),
            seq![ArgView::Plans(plans@)],
        ),
    }
}

/// A request for a plan.
fn request(function: PlanFn, label: &str, args: Vec<PlanArg>) -> (r: Result<PlanRequest, String>)
    ensures
        wish(r) == wanted(function, label@, args_view(args@)),
{
    Ok(PlanRequest { function, label: label.to_owned(), args })
}

/// A request without arguments.
fn plain(function: PlanFn, label: &str) -> (r: Result<PlanRequest, String>)
    ensures
        wish(r) == wanted(function, label@, seq![]),
{
    let args: Vec<PlanArg> = Vec::new();
    assert(args_view(args@) =~= seq![]);
    request(function, label, args)
}

/// A request whose first argument is the object that plays a role.
fn for_player(
    function: PlanFn,
    label: &str,
    d: &LuaDevice,
    role: Role,
    rest: Vec<PlanArg>,
) -> (r: Result<PlanRequest, String>)
    ensures
        wish(r) == with_player(function, label@, *d, role, args_view(rest@)),
{
    match d.need(role) {
        Err(e) => Err(e),
        Ok(o) => {
            let ghost after = args_view(rest@);
            let mut args = rest;
            args.insert(0, PlanArg::Object(o));
            assert(args_view(args@) =~= seq![ArgView::Object(o)] + after);
            request(function, label, args)
        },
    }
}

/// One argument.
fn one(a: PlanArg) -> (v: Vec<PlanArg>)
    ensures
        args_view(v@) == seq![crate::lua_plan::arg_view(a)],
{
    let v = vec![a];
    assert(args_view(v@) =~= seq![crate::lua_plan::arg_view(a)]);
    v
}

/// Two arguments.
fn two(a: PlanArg, b: PlanArg) -> (v: Vec<PlanArg>)
    ensures
        args_view(v@) == seq![crate::lua_plan::arg_view(a), crate::lua_plan::arg_view(b)],
{
    let v = vec![a, b];
    assert(args_view(v@) =~= seq![crate::lua_plan::arg_view(a), crate::lua_plan::arg_view(b)]);
    v
}

/// No argument.
fn none() -> (v: Vec<PlanArg>)
    ensures
        args_view(v@) == Seq::<ArgView>::empty(),
{
    let v: Vec<PlanArg> = Vec::new();
    assert(args_view(v@) =~= seq![]);
    v
}

/// Text, or what stands in for it.
fn or_text(s: Option<String>, default: &str) -> (t: String)
    ensures
        t@ == text_or(s, default@),
{
    match s {
        Some(s) => s,
        None => default.to_owned(),
    }
}

/// Finds out which plan a call asks for.
pub fn bps_plan(call: BpsCall) -> (r: Result<PlanRequest, String>)
    ensures
        wish(r) == bps_wish(call),
{
    match call {
        BpsCall::OpenRun(t) => match lua_table_to_metadata(t) {
            Err(e) => Err(e),
            Ok(m) => {
                let args = one(PlanArg::Metadata(m));
                assert(args_view(args@) =~= bps_wish(call)->Ok_0.args);
                request(PlanFn::OpenRun, "open_run", args)
            },
        },
        BpsCall::CloseRun(es, reason) => request(
            PlanFn::CloseRun,
            "close_run",
            two(PlanArg::Text(or_text(es, "success")), PlanArg::OptText(reason)),
        ),
        BpsCall::Create(name) => request(
            PlanFn::Create,
            "create",
            one(PlanArg::Text(or_text(name, "primary"))),
        ),
        BpsCall::Save => plain(PlanFn::Save, "save"),
        BpsCall::Drop => plain(PlanFn::DropBundle, "drop"),
        BpsCall::Read(d) => for_player(PlanFn::Read, "read", &d, Role::Readable, none()),
        BpsCall::Null => plain(PlanFn::Null, "null"),
        BpsCall::AbsSet(d, v, group) => for_player(
            PlanFn::AbsSet,
            "abs_set",
            &d,
            Role::Movable,
            two(PlanArg::Number(v), PlanArg::OptText(group)),
        ),
        BpsCall::Mv(d, v) => for_player(
            PlanFn::Mv,
            "mv",
            &d,
            Role::Movable,
            one(PlanArg::Number(v)),
        ),
        BpsCall::Mvr(d, v) => for_player(
            PlanFn::Mvr,
            "mvr",
            &d,
            Role::Locatable,
            one(PlanArg::Number(v)),
        ),
        BpsCall::Trigger(d, group) => for_player(
            PlanFn::Trigger,
            "trigger",
            &d,
            Role::Triggerable,
            one(PlanArg::OptText(group)),
        ),
        BpsCall::StopDev(d) => for_player(PlanFn::Stop, "stop", &d, Role::Stoppable, none()),
        BpsCall::Sleep(t) => request(PlanFn::Sleep, "sleep", one(PlanArg::Time(t))),
        BpsCall::Wait(group, t) => request(
            PlanFn::Wait,
            "wait",
            two(PlanArg::Text(group), PlanArg::OptTime(t)),
        ),
        BpsCall::Checkpoint => plain(PlanFn::Checkpoint, "checkpoint"),
        BpsCall::ClearCheckpoint => plain(PlanFn::ClearCheckpoint, "clear_checkpoint"),
        BpsCall::Pause => plain(PlanFn::Pause, "pause"),
        BpsCall::DeferredPause => plain(PlanFn::DeferredPause, "deferred_pause"),
        BpsCall::Resume => plain(PlanFn::Resume, "resume"),
        BpsCall::Kickoff(d, group) => for_player(
            PlanFn::Kickoff,
            "kickoff",
            &d,
            Role::Flyable,
            one(PlanArg::OptText(group)),
        ),
        BpsCall::Complete(d, group) => for_player(
            PlanFn::Complete,
            "complete",
            &d,
            Role::Flyable,
            one(PlanArg::OptText(group)),
        ),
        BpsCall::Stage(d) => for_player(PlanFn::Stage, "stage", &d, Role::Stageable, none()),
        BpsCall::Unstage(d) => for_player(PlanFn::Unstage, "unstage", &d, Role::Stageable, none()),
        BpsCall::StageAll(devs) => match devs_of(&devs, Role::Stageable) {
            Ok(v) => request(PlanFn::StageAll, "stage_all", one(PlanArg::Objects(v))),
            Err(e) => Err(e),
        },
        BpsCall::UnstageAll(devs) => match devs_of(&devs, Role::Stageable) {
            Ok(v) => request(PlanFn::UnstageAll, "unstage_all", one(PlanArg::Objects(v))),
            Err(e) => Err(e),
        },
        BpsCall::Monitor(d, name) => for_player(
            PlanFn::Monitor,
            "monitor",
            &d,
            Role::Monitorable,
            one(PlanArg::OptText(name)),
        ),
        BpsCall::Unmonitor(d) => for_player(
            PlanFn::Unmonitor,
            "unmonitor",
            &d,
            Role::Monitorable,
            none(),
        ),
        BpsCall::TriggerAndRead(devs, name) => match split_trig_read(&devs) {
            Err(e) => Err(e),
            Ok((t, x)) => {
                let args = vec![
                    PlanArg::Objects(t),
                    PlanArg::Objects(x),
                    PlanArg::Text(or_text(name, "primary")),
                ];
                assert(args_view(args@) =~= bps_wish(call)->Ok_0.args);
                request(PlanFn::TriggerAndRead, "trigger_and_read", args)
            },
        },
        BpsCall::OneShot(devs) => match split_trig_read(&devs) {
            Err(e) => Err(e),
            Ok((t, x)) => request(
                PlanFn::OneShot,
                "one_shot",
                two(PlanArg::Objects(t), PlanArg::Objects(x)),
            ),
        },
        BpsCall::Repeater(plans) => {
            let n: u64 = plans.len() as u64;
            request(PlanFn::Pchain, &number_label("repeater", n), one(PlanArg::Plans(plans)))
        },
    }
}

/// What `repeater(n, f)` does next.
#[derive(Copy, Clone, Debug, PartialEq, Eq, Structural)]
pub enum RepeaterNext {
    /// Call `f` with a number, and take out the plan that it makes.
    Make(u64),
    /// Chain the plans that were made.
    Chain,
}

/// What `repeater(n, f)` does next once `made` plans have been taken out: `f` is called with each
/// number below `n`, in order.
pub open spec fn repeats(n: u64, made: nat) -> RepeaterNext {
    if made < n {
        RepeaterNext::Make(made as u64)
    } else {
        RepeaterNext::Chain
    }
}

/// Says what `repeater(n, f)` does next once some plans have been taken out.
pub fn repeater_next(n: u64, plans: &Vec<u64>) -> (next: RepeaterNext)
    ensures
        next == repeats(n, plans@.len()),
{
    let made: u64 = plans.len() as u64;
    if made < n {
        RepeaterNext::Make(made)
    } else {
        RepeaterNext::Chain
    }
}

/// A repeater that makes its plans one after the other, from none, calls the function with the
/// numbers below `n` in order and then chains `n` plans, under a label that names their number.
pub proof fn law_repeater_makes_every_plan(n: u64, made: nat, plans: Vec<u64>)
    requires
        made <= n,
        plans@.len() == made,
    ensures
        made < n ==> repeats(n, made) == RepeaterNext::Make(made as u64),
        repeats(n, made) == RepeaterNext::Chain <==> made == n,
        repeats(n, made) == RepeaterNext::Chain ==> bps_wish(BpsCall::Repeater(plans)) == wanted(
            PlanFn::Pchain,
            numbered("repeater"@, n),
            seq![ArgView::Plans(plans@)],
        ),
{
}

/// A call of a function outside of any namespace.
#[derive(Debug)]
pub enum GlobalCall {
    /// `count(detectors, num)`.
    Count(Vec<LuaDevice>, u64),
    /// `scan(detectors, motor, start, stop, num)`.
    Scan(Vec<LuaDevice>, LuaDevice, Double, Double, u64),
    /// `mvr(motor, delta)`, with the distance also as it is shown.
    Mvr(LuaDevice, Double, String),
    /// `sleep(seconds)`, with the seconds also as they are shown.
    Sleep(Span, String),
    /// `null()`.
    Null,
}

/// The plan that a call asks for, or what the script is told instead.
pub open spec fn global_wish(call: GlobalCall) -> Result<PlanWish, Seq<char>> {
    match call {
        GlobalCall::Count(dets, num) => match all_playing(dets@, Role::Readable) {
            Err(e) => Err(e),
            Ok(d) => wanted(
                PlanFn::Count,
                numbered("count"@, num),
                seq![ArgView::Objects(d), ArgView::Count(num)],
            ),
        },
        GlobalCall::Scan(dets, motor, start, stop, num) => match (
            all_playing(dets@, Role::Readable),
            both_playing(motor, Role::Movable, Role::Readable),
        ) {
            (Err(e), _) => Err(e),
            (_, Err(e)) => Err(e),
            (Ok(d), Ok((m, r))) => wanted(
                PlanFn::Scan,
                numbered("scan"@, num),
                seq![
                    ArgView::Objects(d),
                    ArgView::Object(m),
                    ArgView::Object(r),
                    ArgView::Number(start),
                    ArgView::Number(stop),
                    ArgView::Count(num),
                ],
            ),
        },
        GlobalCall::Mvr(motor, delta, shown) => with_player(
            PlanFn::Mvr,
            "mvr("@ + motor.name@ + ", "@ + shown@ + ")"@,
            motor,
            Role::Locatable,
            seq![ArgView::Number(delta)],
        ),
        GlobalCall::Sleep(t, shown) => wanted(
            PlanFn::Sleep,
            "sleep("@ + shown@ + "s)"@,
            seq![ArgView::Time(t)],
        ),
        GlobalCall::Null => wanted(PlanFn::Null, "null"@, seq![]),
    }
}

/// Finds out which plan a call asks for.
pub fn global_plan(call: GlobalCall) -> (r: Result<PlanRequest, String>)
    ensures
        wish(r) == global_wish(call),
{
    match call {
        GlobalCall::Count(dets, num) => match devs_of(&dets, Role::Readable) {
            Err(e) => Err(e),
            Ok(d) => request(
                PlanFn::Count,
                &number_label("count", num),
                two(PlanArg::Objects(d), PlanArg::Count(num)),
            ),
        },
        GlobalCall::Scan(dets, motor, start, stop, num) => match devs_of(&dets, Role::Readable) {
            Err(e) => Err(e),
            Ok(d) => match both_of(&motor, Role::Movable, Role::Readable) {
                Err(e) => Err(e),
                Ok((m, o)) => {
                    let args = vec![
                        PlanArg::Objects(d),
                        PlanArg::Object(m),
                        PlanArg::Object(o),
                        PlanArg::Number(start),
                        PlanArg::Number(stop),
                        PlanArg::Count(num),
                    ];
                    assert(args_view(args@) =~= global_wish(call)->Ok_0.args);
                    request(PlanFn::Scan, &number_label("scan", num), args)
                },
            },
        },
        GlobalCall::Mvr(motor, delta, shown) => {
            let label = join2(&join3(&join2("mvr(", &motor.name), ", ", &shown), ")");
            for_player(PlanFn::Mvr, &label, &motor, Role::Locatable, one(PlanArg::Number(delta)))
        },
        GlobalCall::Sleep(t, shown) => request(
            PlanFn::Sleep,
            &join3("sleep(", &shown, "s)"),
            one(PlanArg::Time(t)),
        ),
        GlobalCall::Null => plain(PlanFn::Null, "null"),
    }
}

/// The function that `plan(fn, ...)` was given, or what the script is told where it was given
/// none. What follows are the arguments of the first resumption. `shown` is how the host shows
/// the first argument in full.
pub fn plan_function(args: Vec<LuaVal>, shown: &str) -> (r: Result<(u64, Vec<LuaVal>), String>)
    ensures
        if args@.len() == 0 {
            r matches Err(e) && e@ == "plan(fn, ...) requires a function"@
        } else {
            match args@[0] {
                LuaVal::Function(f, _) => r matches Ok(p) && p.0 == f && p.1@ == args@.skip(1),
                _ => r matches Err(e) && e@ == "plan(fn, ...) expected a function, got "@ + shown@,
            }
        },
{
    if args.len() == 0 {
        return Err("plan(fn, ...) requires a function".to_owned());
    }
    let ghost all = args@;
    let mut rest = args;
    let first = rest.remove(0);
    assert(rest@ =~= all.skip(1));
    match first {
        LuaVal::Function(f, _) => Ok((f, rest)),
        _ => Err(join2("plan(fn, ...) expected a function, got ", shown)),
    }
}

/// Whether an argument is a text that may be missing.
pub open spec fn is_opt_text(a: PlanArg, t: Option<String>) -> bool {
    a matches PlanArg::OptText(s) && match (s, t) {
        (Some(x), Some(y)) => x@ == y@,
        (None, None) => true,
        _ => false,
    }
}

/// A plan for one device is for the object that plays the role that the plan needs, with what the
/// script gave besides, in the places that the plan takes it in. It is asked for exactly where the
/// device plays the role.
pub proof fn law_device_plans_reach_their_devices(call: BpsCall, r: Result<PlanRequest, String>)
    requires
        call_ensures(bps_plan, (call,), r),
    ensures
        match call {
            BpsCall::Read(d) => {
                &&& r is Ok <==> d.readable is Some
                &&& r matches Ok(q) ==> q.function == PlanFn::Read && q.label@ == "read"@ && q.args@.len()
                    == 1 && q.args@[0] == PlanArg::Object(d.readable->0)
            },
            BpsCall::AbsSet(d, v, group) => {
                &&& r is Ok <==> d.movable is Some
                &&& r matches Ok(q) ==> q.function == PlanFn::AbsSet && q.label@ == "abs_set"@ && q.args@.len()
                    == 3 && q.args@[0] == PlanArg::Object(d.movable->0) && q.args@[1] == PlanArg::Number(v) && is_opt_text(
                    q.args@[2],
                    group,
                )
            },
            BpsCall::Mv(d, v) => {
                &&& r is Ok <==> d.movable is Some
                &&& r matches Ok(q) ==> q.function == PlanFn::Mv && q.label@ == "mv"@ && q.args@.len()
                    == 2 && q.args@[0] == PlanArg::Object(d.movable->0) && q.args@[1] == PlanArg::Number(v)
            },
            BpsCall::Mvr(d, v) => {
                &&& r is Ok <==> d.locatable is Some
                &&& r matches Ok(q) ==> q.function == PlanFn::Mvr && q.label@ == "mvr"@ && q.args@.len()
                    == 2 && q.args@[0] == PlanArg::Object(d.locatable->0) && q.args@[1] == PlanArg::Number(v)
            },
            BpsCall::Trigger(d, group) => {
                &&& r is Ok <==> d.triggerable is Some
                &&& r matches Ok(q) ==> q.function == PlanFn::Trigger && q.label@ == "trigger"@ && q.args@.len()
                    == 2 && q.args@[0] == PlanArg::Object(d.triggerable->0) && is_opt_text(
                    q.args@[1],
                    group,
                )
            },
            BpsCall::StopDev(d) => {
                &&& r is Ok <==> d.stoppable is Some
                &&& r matches Ok(q) ==> q.function == PlanFn::Stop && q.label@ == "stop"@ && q.args@.len()
                    == 1 && q.args@[0] == PlanArg::Object(d.stoppable->0)
            },
            BpsCall::Kickoff(d, group) => {
                &&& r is Ok <==> d.flyable is Some
                &&& r matches Ok(q) ==> q.function == PlanFn::Kickoff && q.label@ == "kickoff"@ && q.args@.len()
                    == 2 && q.args@[0] == PlanArg::Object(d.flyable->0) && is_opt_text(
                    q.args@[1],
                    group,
                )
            },
            BpsCall::Complete(d, group) => {
                &&& r is Ok <==> d.flyable is Some
                &&& r matches Ok(q) ==> q.function == PlanFn::Complete && q.label@ == "complete"@ && q.args@.len()
                    == 2 && q.args@[0] == PlanArg::Object(d.flyable->0) && is_opt_text(
                    q.args@[1],
                    group,
                )
            },
            BpsCall::Stage(d) => {
                &&& r is Ok <==> d.stageable is Some
                &&& r matches Ok(q) ==> q.function == PlanFn::Stage && q.label@ == "stage"@ && q.args@.len()
                    == 1 && q.args@[0] == PlanArg::Object(d.stageable->0)
            },
            BpsCall::Unstage(d) => {
                &&& r is Ok <==> d.stageable is Some
                &&& r matches Ok(q) ==> q.function == PlanFn::Unstage && q.label@ == "unstage"@ && q.args@.len()
                    == 1 && q.args@[0] == PlanArg::Object(d.stageable->0)
            },
            BpsCall::Monitor(d, name) => {
                &&& r is Ok <==> d.monitorable is Some
                &&& r matches Ok(q) ==> q.function == PlanFn::Monitor && q.label@ == "monitor"@ && q.args@.len()
                    == 2 && q.args@[0] == PlanArg::Object(d.monitorable->0) && is_opt_text(
                    q.args@[1],
                    name,
                )
            },
            BpsCall::Unmonitor(d) => {
                &&& r is Ok <==> d.monitorable is Some
                &&& r matches Ok(q) ==> q.function == PlanFn::Unmonitor && q.label@ == "unmonitor"@ && q.args@.len()
                    == 1 && q.args@[0] == PlanArg::Object(d.monitorable->0)
            },
            _ => true,
        },
{
    if r is Ok {
        lemma_args(r->Ok_0.args@);
    }
}

/// The plans without arguments are each their own; a sleep, a wait, the end of a run and the opening
/// of a bundle carry what the script gave, or what stands in for it.
pub proof fn law_plain_plans_carry_what_was_given(call: BpsCall, r: Result<PlanRequest, String>)
    requires
        call_ensures(bps_plan, (call,), r),
    ensures
        match call {
            BpsCall::Save => r matches Ok(q) && q.function == PlanFn::Save && q.label@ == "save"@ && q.args@.len()
                == 0,
            BpsCall::Drop => r matches Ok(q) && q.function == PlanFn::DropBundle && q.label@ == "drop"@ && q.args@.len()
                == 0,
            BpsCall::Null => r matches Ok(q) && q.function == PlanFn::Null && q.label@ == "null"@ && q.args@.len()
                == 0,
            BpsCall::Checkpoint => r matches Ok(q) && q.function == PlanFn::Checkpoint && q.label@ == "checkpoint"@ && q.args@.len()
                == 0,
            BpsCall::ClearCheckpoint => r matches Ok(q) && q.function == PlanFn::ClearCheckpoint && q.label@ == "clear_checkpoint"@ && q.args@.len()
                == 0,
            BpsCall::Pause => r matches Ok(q) && q.function == PlanFn::Pause && q.label@ == "pause"@ && q.args@.len()
                == 0,
            BpsCall::DeferredPause => r matches Ok(q) && q.function == PlanFn::DeferredPause && q.label@ == "deferred_pause"@ && q.args@.len()
                == 0,
            BpsCall::Resume => r matches Ok(q) && q.function == PlanFn::Resume && q.label@ == "resume"@ && q.args@.len()
                == 0,
            BpsCall::Sleep(t) => r matches Ok(q) && q.function == PlanFn::Sleep && q.label@
                == "sleep"@ && q.args@.len() == 1 && q.args@[0] == PlanArg::Time(t),
            BpsCall::Wait(group, t) => r matches Ok(q) && q.function == PlanFn::Wait && q.label@
                == "wait"@ && q.args@.len() == 2 && (q.args@[0] matches PlanArg::Text(g) && g@
                == group@) && q.args@[1] == PlanArg::OptTime(t),
            BpsCall::CloseRun(status, reason) => r matches Ok(q) && q.function == PlanFn::CloseRun
                && q.label@ == "close_run"@ && q.args@.len() == 2 && (q.args@[0] matches PlanArg::Text(
                s,
            ) && match status {
                Some(given) => s@ == given@,
                None => s@ == "success"@,
            }) && is_opt_text(q.args@[1], reason),
            BpsCall::Create(name) => r matches Ok(q) && q.function == PlanFn::Create && q.label@
                == "create"@ && q.args@.len() == 1 && (q.args@[0] matches PlanArg::Text(s)
                && match name {
                Some(given) => s@ == given@,
                None => s@ == "primary"@,
            }),
            BpsCall::Repeater(plans) => r matches Ok(q) && q.function == PlanFn::Pchain
                && q.args@.len() == 1 && (q.args@[0] matches PlanArg::Plans(v) && v@ == plans@),
            BpsCall::OpenRun(None) => r matches Ok(q) && q.function == PlanFn::OpenRun
                && q.args@.len() == 1 && (q.args@[0] matches PlanArg::Metadata(m) && m.plan_name
                is None && m.scan_id is None && m.extra@ == Map::<Seq<char>, JsonView>::empty()),
            BpsCall::OpenRun(Some(t)) => match lua_map(pairs_view(t.pairs@), true) {
                Ok(extra) => r matches Ok(q) && q.function == PlanFn::OpenRun && q.args@.len() == 1
                    && (q.args@[0] matches PlanArg::Metadata(m) && m.scan_id == t.scan_id && m.extra@
                    == extra && match (m.plan_name, t.plan_name) {
                    (Some(x), Some(y)) => x@ == y@,
                    (None, None) => true,
                    _ => false,
                }),
                Err(_) => r is Err,
            },
            _ => true,
        },
{
    if r is Ok {
        lemma_args(r->Ok_0.args@);
    }
}

/// A plan for several devices is for all of them, in order. What triggers and reads does so with the
/// objects that play both roles for each device.
pub proof fn law_plans_for_several_devices(call: BpsCall, r: Result<PlanRequest, String>)
    requires
        call_ensures(bps_plan, (call,), r),
    ensures
        match call {
            BpsCall::StageAll(devs) => {
                &&& r is Ok <==> forall|i: int|
                    0 <= i < devs@.len() ==> (#[trigger] devs@[i]).stageable is Some
                &&& r matches Ok(q) ==> q.function == PlanFn::StageAll && q.args@.len() == 1 && (
                q.args@[0] matches PlanArg::Objects(v) && players(devs@, Role::Stageable, v@))
            },
            BpsCall::UnstageAll(devs) => {
                &&& r is Ok <==> forall|i: int|
                    0 <= i < devs@.len() ==> (#[trigger] devs@[i]).stageable is Some
                &&& r matches Ok(q) ==> q.function == PlanFn::UnstageAll && q.args@.len() == 1 && (
                q.args@[0] matches PlanArg::Objects(v) && players(devs@, Role::Stageable, v@))
            },
            BpsCall::TriggerAndRead(devs, name) => {
                &&& r is Ok <==> all_triggered_and_read(devs@)
                &&& r matches Ok(q) ==> q.function == PlanFn::TriggerAndRead && q.args@.len() == 3
                    && (q.args@[0] matches PlanArg::Objects(t) && players(
                    devs@,
                    Role::Triggerable,
                    t@,
                )) && (q.args@[1] matches PlanArg::Objects(v) && players(
                    devs@,
                    Role::Readable,
                    v@,
                )) && (q.args@[2] matches PlanArg::Text(s) && match name {
                    Some(given) => s@ == given@,
                    None => s@ == "primary"@,
                })
            },
            BpsCall::OneShot(devs) => {
                &&& r is Ok <==> all_triggered_and_read(devs@)
                &&& r matches Ok(q) ==> q.function == PlanFn::OneShot && q.args@.len() == 2 && (
                q.args@[0] matches PlanArg::Objects(t) && players(
                    devs@,
                    Role::Triggerable,
                    t@,
                )) && (q.args@[1] matches PlanArg::Objects(v) && players(
                    devs@,
                    Role::Readable,
                    v@,
                ))
            },
            _ => true,
        },
{
    match call {
        BpsCall::StageAll(devs) => law_devices_give_their_objects(devs@, Role::Stageable),
        BpsCall::UnstageAll(devs) => law_devices_give_their_objects(devs@, Role::Stageable),
        BpsCall::TriggerAndRead(devs, name) => lemma_split(devs@),
        BpsCall::OneShot(devs) => lemma_split(devs@),
        _ => {},
    }
    if r is Ok {
        lemma_args(r->Ok_0.args@);
    }
}

/// Whether every device can be triggered and read.
pub open spec fn all_triggered_and_read(devs: Seq<LuaDevice>) -> bool {
    forall|i: int|
        0 <= i < devs.len() ==> (#[trigger] devs[i]).triggerable is Some && devs[i].readable is Some
}

proof fn lemma_split(devs: Seq<LuaDevice>)
    ensures
        split_playing(devs) is Ok <==> all_triggered_and_read(devs),
        split_playing(devs) matches Ok((t, x)) ==> players(devs, Role::Triggerable, t) && players(
            devs,
            Role::Readable,
            x,
        ),
    decreases devs.len(),
{
    if devs.len() > 0 {
        let rest = devs.drop_last();
        lemma_split(rest);
        assert forall|i: int| 0 <= i < rest.len() implies #[trigger] devs[i] == rest[i] by {}
        let last = devs[devs.len() - 1];
        if split_playing(rest) is Err {
            let i = choose|i: int|
                0 <= i < rest.len() && !((#[trigger] rest[i]).triggerable is Some
                    && rest[i].readable is Some);
            assert(devs[i] == rest[i]);
        } else if split_playing(devs) is Ok {
            let (t, x) = split_playing(devs)->Ok_0;
            let (t0, x0) = split_playing(rest)->Ok_0;
            assert forall|i: int| 0 <= i < devs.len() implies (#[trigger] devs[i]).triggerable is Some
                && devs[i].readable is Some by {
                if i < rest.len() {
                    assert(devs[i] == rest[i]);
                    assert(plays(rest[i], Role::Triggerable) && plays(rest[i], Role::Readable));
                }
            }
            assert forall|i: int| 0 <= i < devs.len() implies #[trigger] t[i]
                == devs[i].triggerable->0 && x[i] == devs[i].readable->0 by {
                if i < rest.len() {
                    assert(t[i] == t0[i] && x[i] == x0[i] && devs[i] == rest[i]);
                }
            }
            assert forall|i: int| 0 <= i < devs.len() implies #[trigger] x[i]
                == devs[i].readable->0 by {
                assert(t[i] == devs[i].triggerable->0);
            }
        }
    }
}

/// The plans that stand outside of any namespace carry what the script gave, as those of the
/// namespaces do.
pub proof fn law_global_plans_carry_what_was_given(call: GlobalCall, r: Result<PlanRequest, String>)
    requires
        call_ensures(global_plan, (call,), r),
    ensures
        match call {
            GlobalCall::Count(dets, num) => {
                &&& r is Ok <==> forall|i: int|
                    0 <= i < dets@.len() ==> (#[trigger] dets@[i]).readable is Some
                &&& r matches Ok(q) ==> q.function == PlanFn::Count && q.args@.len() == 2 && (
                q.args@[0] matches PlanArg::Objects(v) && players(dets@, Role::Readable, v@))
                    && q.args@[1] == PlanArg::Count(num)
            },
            GlobalCall::Scan(dets, motor, start, stop, num) => {
                &&& r is Ok <==> motor.movable is Some && motor.readable is Some && forall|i: int|
                    0 <= i < dets@.len() ==> (#[trigger] dets@[i]).readable is Some
                &&& r matches Ok(q) ==> q.function == PlanFn::Scan && q.args@.len() == 6 && (
                q.args@[0] matches PlanArg::Objects(v) && players(dets@, Role::Readable, v@))
                    && q.args@[1] == PlanArg::Object(motor.movable->0) && q.args@[2]
                    == PlanArg::Object(motor.readable->0) && q.args@[3] == PlanArg::Number(start)
                    && q.args@[4] == PlanArg::Number(stop) && q.args@[5] == PlanArg::Count(num)
            },
            GlobalCall::Mvr(motor, delta, shown) => {
                &&& r is Ok <==> motor.locatable is Some
                &&& r matches Ok(q) ==> q.function == PlanFn::Mvr && q.args@.len() == 2
                    && q.args@[0] == PlanArg::Object(motor.locatable->0) && q.args@[1]
                    == PlanArg::Number(delta) && q.label@ == "mvr("@ + motor.name@ + ", "@ + shown@
                    + ")"@
            },
            GlobalCall::Sleep(t, shown) => r matches Ok(q) && q.function == PlanFn::Sleep
                && q.args@.len() == 1 && q.args@[0] == PlanArg::Time(t) && q.label@ == "sleep("@
                + shown@ + "s)"@,
            GlobalCall::Null => r matches Ok(q) && q.function == PlanFn::Null && q.args@.len() == 0,
        },
{
    match call {
        GlobalCall::Count(dets, num) => law_devices_give_their_objects(dets@, Role::Readable),
        GlobalCall::Scan(dets, motor, start, stop, num) => law_devices_give_their_objects(
            dets@,
            Role::Readable,
        ),
        _ => {},
    }
    if r is Ok {
        lemma_args(r->Ok_0.args@);
    }
}

} // verus!
