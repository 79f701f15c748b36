//! Plans as scripts hold them, and the plans that scripts ask for.

use vstd::prelude::*;
use vstd::string::*;

use crate::error::Span;
use crate::lua_device::{not_playing, player, role_name, LuaDevice, Role};
use crate::msg::{ObjRef, RunMetadata};
use crate::strmap::StrMap;
use crate::text::{dec_u64, decimal, join2, join3};
use crate::value::{Double, Json, JsonView};

verus! {

/// The two flavours of plans: a finished one, and a coroutine that is turned into one when it
/// runs. Both are named by the handles under which the host keeps them.
#[derive(Copy, Clone, Debug, PartialEq, Eq, Structural)]
pub enum LuaPlanKind {
    /// A finished plan.
    Prebuilt(u64),
    /// A coroutine.
    Coroutine(u64),
}

/// A plan as scripts hold it. It can be used once.
#[derive(Debug)]
pub struct LuaPlan {
    /// The label.
    pub label: String,
    /// What it holds, until it is used.
    pub kind: Option<LuaPlanKind>,
}

impl LuaPlan {
    /// A finished plan.
    pub fn wrap_prebuilt(label: String, plan: u64) -> (p: Self)
        ensures
            p.label == label,
            p.kind == Some(LuaPlanKind::Prebuilt(plan)),
    {
        LuaPlan { label, kind: Some(LuaPlanKind::Prebuilt(plan)) }
    }

    /// A coroutine.
    pub fn coroutine(thread: u64) -> (p: Self)
        ensures
            p.label@ == "coroutine"@,
            p.kind == Some(LuaPlanKind::Coroutine(thread)),
    {
        LuaPlan { label: "coroutine".to_owned(), kind: Some(LuaPlanKind::Coroutine(thread)) }
    }

    /// How the plan is shown.
    pub fn shown(&self) -> (s: String)
        ensures
            s@ == "Plan("@ + self.label@ + ")"@,
    {
        join3("Plan(", &self.label, ")")
    }

    /// Takes the plan out to run it.
    pub fn take_to_run(&mut self) -> (r: Result<LuaPlanKind, String>)
        ensures
            final(self).label == old(self).label,
            final(self).kind is None,
            match old(self).kind {
                Some(k) => r == Ok::<LuaPlanKind, String>(k),
                None => r matches Err(e) && e@
                    == "plan was already consumed (Plans are single-use)"@,
            },
    {
        match self.kind.take() {
            Some(k) => Ok(k),
            None => Err("plan was already consumed (Plans are single-use)".to_owned()),
        }
    }

    /// Takes the plan out to make it part of another one. A coroutine cannot be part of one, and
    /// is used up nevertheless.
    pub fn take_inner_plan(&mut self) -> (r: Result<u64, String>)
        ensures
            final(self).label == old(self).label,
            final(self).kind is None,
            taken(old(self).kind, r),
    {
        match self.kind.take() {
            Some(LuaPlanKind::Prebuilt(p)) => Ok(p),
            Some(LuaPlanKind::Coroutine(_)) => Err(
                "coroutine plans (built via plan()) can't be wrapped by bpp.* — pass a prebuilt plan (count/scan/...) instead".to_owned(),
            ),
            None => Err("plan was already consumed".to_owned()),
        }
    }
}

/// What a script is told when it makes part of another plan what cannot be part of one.
pub open spec fn cannot_take(kind: Option<LuaPlanKind>) -> Seq<char> {
    if kind is None {
        "plan was already consumed"@
    } else {
        "coroutine plans (built via plan()) can't be wrapped by bpp.* — pass a prebuilt plan (count/scan/...) instead"@
    }
}

/// Whether `r` is the finished plan, or what the script is told where there is none.
pub open spec fn taken(kind: Option<LuaPlanKind>, r: Result<u64, String>) -> bool {
    match kind {
        Some(LuaPlanKind::Prebuilt(p)) => r == Ok::<u64, String>(p),
        _ => r matches Err(e) && e@ == cannot_take(kind),
    }
}

/// A function of the plan library.
#[derive(Copy, Clone, Debug, PartialEq, Eq, Structural)]
#[allow(missing_docs)]
pub enum PlanFn {
    Count,
    CountWithTrigger,
    Scan,
    ListScan,
    RelScan,
    RelListScan,
    GridScan,
    RelGridScan,
    ListGridScan,
    InnerProductScan,
    ScanNd,
    Spiral,
    SpiralSquare,
    SpiralFermat,
    RampPlan,
    LogScan,
    OpenRun,
    CloseRun,
    Create,
    Save,
    DropBundle,
    Read,
    Null,
    AbsSet,
    Mv,
    Mvr,
    Trigger,
    Stop,
    Sleep,
    Wait,
    Checkpoint,
    ClearCheckpoint,
    Pause,
    DeferredPause,
    Resume,
    Kickoff,
    Complete,
    Stage,
    Unstage,
    StageAll,
    UnstageAll,
    Monitor,
    Unmonitor,
    TriggerAndRead,
    OneShot,
    RunWrapper,
    InjectMdWrapper,
    RewindableWrapper,
    MonitorDuringWrapper,
    StageWrapper,
    BaselineWrapper,
    FinalizeWrapper,
    SubsWrapper,
    RelativeSetWrapper,
    ResetPositionsWrapper,
    PrintSummaryWrapper,
    ContingencyWrapper,
    Pchain,
    MsgMutator,
}

/// One axis of a scan: a motor, and the numbers that say where it goes.
#[derive(Debug)]
pub struct Axis {
    /// The object that moves.
    pub movable: ObjRef,
    /// The object that is read.
    pub readable: ObjRef,
    /// Where it goes.
    pub at: Vec<Double>,
}

/// What an [`Axis`] stands for.
pub struct AxisView {
    /// The object that moves.
    pub movable: ObjRef,
    /// The object that is read.
    pub readable: ObjRef,
    /// Where it goes.
    pub at: Seq<Double>,
}

/// An argument for a function of the plan library.
#[derive(Debug)]
pub enum PlanArg {
    /// Objects.
    Objects(Vec<ObjRef>),
    /// An object.
    Object(ObjRef),
    /// A number.
    Number(Double),
    /// Numbers.
    Numbers(Vec<Double>),
    /// Points.
    Points(Vec<Vec<Double>>),
    /// A count.
    Count(u64),
    /// Text.
    Text(String),
    /// Text that may be missing.
    OptText(Option<String>),
    /// A truth value.
    Flag(bool),
    /// A span of time.
    Time(Span),
    /// A span of time that may be missing.
    OptTime(Option<Span>),
    /// Run metadata.
    Metadata(RunMetadata),
    /// Free-form metadata.
    Members(StrMap<Json>),
    /// Axes.
    Axes(Vec<Axis>),
    /// A plan, by its handle.
    Plan(u64),
    /// Plans, by their handles.
    Plans(Vec<u64>),
    /// A function of the script, by its handle.
    Function(u64),
}

/// What a [`PlanArg`] stands for.
pub enum ArgView {
    /// Objects.
    Objects(Seq<ObjRef>),
    /// An object.
    Object(ObjRef),
    /// A number.
    Number(Double),
    /// Numbers.
    Numbers(Seq<Double>),
    /// Points.
    Points(Seq<Vec<Double>>),
    /// A count.
    Count(u64),
    /// Text.
    Text(Seq<char>),
    /// Text that may be missing.
    OptText(Option<Seq<char>>),
    /// A truth value.
    Flag(bool),
    /// A span of time.
    Time(Span),
    /// A span of time that may be missing.
    OptTime(Option<Span>),
    /// Run metadata: plan name, scan ID, and the rest.
    Metadata(Option<Seq<char>>, Option<u64>, Map<Seq<char>, JsonView>),
    /// Free-form metadata.
    Members(Map<Seq<char>, JsonView>),
    /// Axes.
    Axes(Seq<AxisView>),
    /// A plan.
    Plan(u64),
    /// Plans.
    Plans(Seq<u64>),
    /// A function of the script.
    Function(u64),
}

/// Axes by their views.
pub open spec fn axes_view(axes: Seq<Axis>) -> Seq<AxisView> {
    axes.map_values(
        |a: Axis| AxisView { movable: a.movable, readable: a.readable, at: a.at@ },
    )
}

/// What an argument stands for.
pub open spec fn arg_view(a: PlanArg) -> ArgView {
    match a {
        PlanArg::Objects(v) => ArgView::Objects(v@),
        PlanArg::Object(o) => ArgView::Object(o),
        PlanArg::Number(x) => ArgView::Number(x),
        PlanArg::Numbers(v) => ArgView::Numbers(v@),
        PlanArg::Points(v) => ArgView::Points(v@),
        PlanArg::Count(n) => ArgView::Count(n),
        PlanArg::Text(s) => ArgView::Text(s@),
        PlanArg::OptText(s) => ArgView::OptText(s.deep_view()),
        PlanArg::Flag(b) => ArgView::Flag(b),
        PlanArg::Time(t) => ArgView::Time(t),
        PlanArg::OptTime(t) => ArgView::OptTime(t),
        PlanArg::Metadata(m) => ArgView::Metadata(m.plan_name.deep_view(), m.scan_id, m.extra@),
        PlanArg::Members(m) => ArgView::Members(m@),
        PlanArg::Axes(v) => ArgView::Axes(axes_view(v@)),
        PlanArg::Plan(p) => ArgView::Plan(p),
        PlanArg::Plans(v) => ArgView::Plans(v@),
        PlanArg::Function(f) => ArgView::Function(f),
    }
}

/// Arguments by their views.
pub open spec fn args_view(args: Seq<PlanArg>) -> Seq<ArgView> {
    Seq::new(args.len(), |i: int| arg_view(args[i]))
}

/// A call of a function of the plan library, and the label of the plan that it gives.
#[derive(Debug)]
pub struct PlanRequest {
    /// The function.
    pub function: PlanFn,
    /// The label.
    pub label: String,
    /// The arguments.
    pub args: Vec<PlanArg>,
}

/// What a [`PlanRequest`] stands for.
pub struct PlanWish {
    /// The function.
    pub function: PlanFn,
    /// The label.
    pub label: Seq<char>,
    /// The arguments.
    pub args: Seq<ArgView>,
}

/// A request, or what a script is told instead, by its view.
pub open spec fn wish(r: Result<PlanRequest, String>) -> Result<PlanWish, Seq<char>> {
    match r {
        Ok(q) => Ok(PlanWish { function: q.function, label: q.label@, args: args_view(q.args@) }),
        Err(e) => Err(e@),
    }
}

/// A request.
pub open spec fn wanted(function: PlanFn, label: Seq<char>, args: Seq<ArgView>) -> Result<
    PlanWish,
    Seq<char>,
> {
    Ok(PlanWish { function, label, args })
}

/// The label of a plan with a number of points.
pub open spec fn numbered(name: Seq<char>, n: u64) -> Seq<char> {
    name + "(n="@ + decimal(n as nat) + ")"@
}

/// The label of a plan with a number of points.
pub fn number_label(name: &str, n: u64) -> (s: String)
    ensures
        s@ == numbered(name@, n),
{
    join2(&join3(name, "(n=", &dec_u64(n)), ")")
}

/// The objects that play a role for several devices, or what a script is told where one of them
/// does not.
pub open spec fn all_playing(devs: Seq<LuaDevice>, role: Role) -> Result<Seq<ObjRef>, Seq<char>>
    decreases devs.len(),
{
    if devs.len() == 0 {
        Ok(seq![])
    } else {
        match all_playing(devs.drop_last(), role) {
            Err(e) => Err(e),
            Ok(v) => match player(devs.last(), role) {
                None => Err(not_playing(devs.last(), role)),
                Some(o) => Ok(v.push(o)),
            },
        }
    }
}

/// What fails on the first `n` devices fails alike on all of them.
proof fn lemma_playing_fails(devs: Seq<LuaDevice>, role: Role, n: int)
    requires
        0 <= n <= devs.len(),
        all_playing(devs.take(n), role) is Err,
    ensures
        all_playing(devs, role) == all_playing(devs.take(n), role),
    decreases devs.len() - n,
{
    if n == devs.len() {
        assert(devs.take(n) =~= devs);
    } else {
        assert(devs.take(n + 1).drop_last() =~= devs.take(n));
        lemma_playing_fails(devs, role, n + 1);
    }
}

/// Finds the objects that play a role for several devices.
pub fn devs_of(devs: &Vec<LuaDevice>, role: Role) -> (r: Result<Vec<ObjRef>, String>)
    ensures
        match all_playing(devs@, role) {
            Ok(v) => r matches Ok(w) && w@ == v,
            Err(e) => r matches Err(s) && s@ == e,
        },
{
    let mut out: Vec<ObjRef> = Vec::new();
    let mut i: usize = 0;
    assert(devs@.take(0) =~= seq![]);
    while i < devs.len()
        invariant
            i <= devs.len(),
            all_playing(devs@.take(i as int), role) == Ok::<Seq<ObjRef>, Seq<char>>(out@),
        decreases devs.len() - i,
    {
        proof {
            assert(devs@.take(i + 1).drop_last() =~= devs@.take(i as int));
        }
        match devs[i].need(role) {
            Ok(o) => {
                out.push(o);
            },
            Err(e) => {
                proof {
                    lemma_playing_fails(devs@, role, i + 1);
                }
                return Err(e);
            },
        }
        i += 1;
    }
    assert(devs@.take(devs@.len() as int) =~= devs@);
    Ok(out)
}

/// The objects that play two roles of a device, or what a script is told where one does not.
pub open spec fn both_playing(d: LuaDevice, a: Role, b: Role) -> Result<
    (ObjRef, ObjRef),
    Seq<char>,
> {
    match (player(d, a), player(d, b)) {
        (None, _) => Err(not_playing(d, a)),
        (_, None) => Err(not_playing(d, b)),
        (Some(x), Some(y)) => Ok((x, y)),
    }
}

/// Finds the objects that play two roles of a device.
pub fn both_of(d: &LuaDevice, a: Role, b: Role) -> (r: Result<(ObjRef, ObjRef), String>)
    ensures
        match both_playing(*d, a, b) {
            Ok(p) => r == Ok::<(ObjRef, ObjRef), String>(p),
            Err(e) => r matches Err(s) && s@ == e,
        },
{
    match d.need(a) {
        Err(e) => Err(e),
        Ok(x) => match d.need(b) {
            Err(e) => Err(e),
            Ok(y) => Ok((x, y)),
        },
    }
}

/// A motor, and the numbers that say where it goes.
#[derive(Debug)]
pub struct AxisTable {
    /// The motor.
    pub motor: LuaDevice,
    /// Where it goes.
    pub at: Vec<Double>,
}

/// The axes that tables describe, or what a script is told where a motor cannot be moved or read.
pub open spec fn axes_of(rows: Seq<AxisTable>) -> Result<Seq<AxisView>, Seq<char>>
    decreases rows.len(),
{
    if rows.len() == 0 {
        Ok(seq![])
    } else {
        match axes_of(rows.drop_last()) {
            Err(e) => Err(e),
            Ok(v) => match both_playing(rows.last().motor, Role::Movable, Role::Readable) {
                Err(e) => Err(e),
                Ok((m, r)) => Ok(
                    v.push(AxisView { movable: m, readable: r, at: rows.last().at@ }),
                ),
            },
        }
    }
}

/// What fails on the first `n` rows fails alike on all of them.
proof fn lemma_axes_fail(rows: Seq<AxisTable>, n: int)
    requires
        0 <= n <= rows.len(),
        axes_of(rows.take(n)) is Err,
    ensures
        axes_of(rows) == axes_of(rows.take(n)),
    decreases rows.len() - n,
{
    if n == rows.len() {
        assert(rows.take(n) =~= rows);
    } else {
        assert(rows.take(n + 1).drop_last() =~= rows.take(n));
        lemma_axes_fail(rows, n + 1);
    }
}

/// Copies numbers.
fn copy_numbers(v: &Vec<Double>) -> (c: Vec<Double>)
    ensures
        c@ == v@,
{
    let mut c: Vec<Double> = Vec::new();
    let mut i: usize = 0;
    while i < v.len()
        invariant
            i <= v.len(),
            c@ == v@.take(i as int),
        decreases v.len() - i,
    {
        c.push(v[i]);
        i += 1;
        assert(c@ =~= v@.take(i as int));
    }
    assert(v@.take(v@.len() as int) =~= v@);
    c
}

/// Finds the axes that tables describe.
pub fn tables_to_axes(rows: &Vec<AxisTable>) -> (r: Result<Vec<Axis>, String>)
    ensures
        match axes_of(rows@) {
            Ok(v) => r matches Ok(w) && axes_view(w@) == v,
            Err(e) => r matches Err(s) && s@ == e,
        },
{
    let mut out: Vec<Axis> = Vec::new();
    let mut i: usize = 0;
    assert(rows@.take(0) =~= seq![]);
    assert(axes_view(out@) =~= seq![]);
    while i < rows.len()
        invariant
            i <= rows.len(),
            axes_of(rows@.take(i as int)) == Ok::<Seq<AxisView>, Seq<char>>(axes_view(out@)),
        decreases rows.len() - i,
    {
        proof {
            assert(rows@.take(i + 1).drop_last() =~= rows@.take(i as int));
        }
        match both_of(&rows[i].motor, Role::Movable, Role::Readable) {
            Ok((movable, readable)) => {
                let ghost before = axes_view(out@);
                out.push(Axis { movable, readable, at: copy_numbers(&rows[i].at) });
                assert(axes_view(out@) =~= before.push(
                    AxisView { movable, readable, at: rows@[i as int].at@ },
                ));
            },
            Err(e) => {
                proof {
                    lemma_axes_fail(rows@, i + 1);
                }
                return Err(e);
            },
        }
        i += 1;
    }
    assert(rows@.take(rows@.len() as int) =~= rows@);
    Ok(out)
}

/// One axis of a grid.
#[derive(Debug)]
pub struct GridAxis {
    /// The motor.
    pub motor: LuaDevice,
    /// Where it starts.
    pub start: Double,
    /// Where it stops.
    pub stop: Double,
    /// The number of points.
    pub num: u64,
}

/// Whether each device plays the role, and `objs` are the objects that play it, in order.
pub open spec fn players(devs: Seq<LuaDevice>, role: Role, objs: Seq<ObjRef>) -> bool {
    &&& objs.len() == devs.len()
    &&& forall|i: int|
        0 <= i < devs.len() ==> #[trigger] objs[i] == match role {
            Role::Readable => devs[i].readable->0,
            Role::Movable => devs[i].movable->0,
            Role::Locatable => devs[i].locatable->0,
            Role::Stoppable => devs[i].stoppable->0,
            Role::Triggerable => devs[i].triggerable->0,
            Role::Stageable => devs[i].stageable->0,
            Role::Monitorable => devs[i].monitorable->0,
            Role::Flyable => devs[i].flyable->0,
            Role::Preparable => devs[i].preparable->0,
            Role::Configurable => devs[i].configurable->0,
            Role::Collectable => devs[i].collectable->0,
            Role::Pausable => devs[i].pausable->0,
        }
    &&& forall|i: int| 0 <= i < devs.len() ==> plays(#[trigger] devs[i], role)
}

/// Whether a device plays a role.
pub open spec fn plays(d: LuaDevice, role: Role) -> bool {
    match role {
        Role::Readable => d.readable is Some,
        Role::Movable => d.movable is Some,
        Role::Locatable => d.locatable is Some,
        Role::Stoppable => d.stoppable is Some,
        Role::Triggerable => d.triggerable is Some,
        Role::Stageable => d.stageable is Some,
        Role::Monitorable => d.monitorable is Some,
        Role::Flyable => d.flyable is Some,
        Role::Preparable => d.preparable is Some,
        Role::Configurable => d.configurable is Some,
        Role::Collectable => d.collectable is Some,
        Role::Pausable => d.pausable is Some,
    }
}

/// The objects for several devices are found where each device plays the role: the object of each,
/// in order. Otherwise a script is told of the first device that does not.
pub proof fn law_devices_give_their_objects(devs: Seq<LuaDevice>, role: Role)
    ensures
        match all_playing(devs, role) {
            Ok(objs) => players(devs, role, objs),
            Err(e) => exists|i: int|
                {
                    &&& 0 <= i < devs.len()
                    &&& !plays(#[trigger] devs[i], role)
                    &&& e == devs[i].name@ + " is not "@ + role_name(role)
                    &&& forall|j: int| 0 <= j < i ==> plays(#[trigger] devs[j], role)
                },
        },
    decreases devs.len(),
{
    if devs.len() > 0 {
        let rest = devs.drop_last();
        law_devices_give_their_objects(rest, role);
        match all_playing(rest, role) {
            Ok(v) => {
                assert forall|j: int| 0 <= j < devs.len() - 1 implies plays(
                    #[trigger] devs[j],
                    role,
                ) by {
                    assert(devs[j] == rest[j]);
                }
                if player(devs.last(), role) is None {
                    assert(!plays(devs[devs.len() - 1], role));
                } else {
                    let objs = all_playing(devs, role)->Ok_0;
                    assert forall|j: int| 0 <= j < devs.len() - 1 implies objs[j] == v[j]
                        && #[trigger] devs[j] == rest[j] by {}
                    assert(players(devs, role, objs));
                }
            },
            Err(e) => {
                let i = choose|i: int|
                    {
                        &&& 0 <= i < rest.len()
                        &&& !plays(#[trigger] rest[i], role)
                        &&& e == rest[i].name@ + " is not "@ + role_name(role)
                        &&& forall|j: int| 0 <= j < i ==> plays(#[trigger] rest[j], role)
                    };
                assert(devs[i] == rest[i]);
                assert forall|j: int| 0 <= j < i implies plays(#[trigger] devs[j], role) by {
                    assert(devs[j] == rest[j]);
                }
            },
        }
    }
}

/// The axes that tables describe are found where each motor can be moved and read: one for each
/// table, in order, with the motor's two objects and the table's numbers.
pub proof fn law_tables_give_their_axes(rows: Seq<AxisTable>)
    ensures
        axes_of(rows) is Ok <==> forall|i: int|
            0 <= i < rows.len() ==> (#[trigger] rows[i]).motor.movable is Some
                && rows[i].motor.readable is Some,
        axes_of(rows) matches Ok(axes) ==> {
            &&& axes.len() == rows.len()
            &&& forall|i: int|
                0 <= i < rows.len() ==> {
                    &&& (#[trigger] axes[i]).movable == rows[i].motor.movable->0
                    &&& axes[i].readable == rows[i].motor.readable->0
                    &&& axes[i].at == rows[i].at@
                }
        },
    decreases rows.len(),
{
    if rows.len() > 0 {
        let rest = rows.drop_last();
        law_tables_give_their_axes(rest);
        assert forall|i: int| 0 <= i < rest.len() implies #[trigger] rows[i] == rest[i] by {}
        let last = rows[rows.len() - 1];
        if axes_of(rest) is Ok && axes_of(rows) is Ok {
            assert forall|i: int| 0 <= i < rows.len() implies (#[trigger] rows[i]).motor.movable
                is Some && rows[i].motor.readable is Some by {
                if i < rest.len() {
                    assert(rows[i] == rest[i]);
                }
            }
        }
        if axes_of(rest) is Err {
            let i = choose|i: int|
                0 <= i < rest.len() && !((#[trigger] rest[i]).motor.movable is Some
                    && rest[i].motor.readable is Some);
            assert(rows[i] == rest[i]);
        }
    }
}

/// The views of arguments, one by one.
pub proof fn lemma_args(args: Seq<PlanArg>)
    ensures
        args_view(args).len() == args.len(),
        forall|i: int| 0 <= i < args.len() ==> args_view(args)[i] == arg_view(#[trigger] args[i]),
{
}

/// A plan is used once: the first use takes what it was made of, and a second one is refused. A plan
/// that was finished beforehand can be used inside of another one, a coroutine cannot.
pub proof fn law_plan_is_used_once(
    p: LuaPlan,
    label: String,
    plan: u64,
    thread: u64,
    c: LuaPlan,
    a: &mut LuaPlan,
    first: Result<LuaPlanKind, String>,
    b: &mut LuaPlan,
    second: Result<LuaPlanKind, String>,
    d: &mut LuaPlan,
    inner: Result<u64, String>,
    e: &mut LuaPlan,
    refused: Result<u64, String>,
)
    requires
        call_ensures(LuaPlan::wrap_prebuilt, (label, plan), p),
        call_ensures(LuaPlan::coroutine, (thread,), c),
        *old(a) == p,
        call_ensures(LuaPlan::take_to_run, (a,), first),
        *old(b) == *final(a),
        call_ensures(LuaPlan::take_to_run, (b,), second),
        *old(d) == p,
        call_ensures(LuaPlan::take_inner_plan, (d,), inner),
        *old(e) == c,
        call_ensures(LuaPlan::take_inner_plan, (e,), refused),
    ensures
        first == Ok::<LuaPlanKind, String>(LuaPlanKind::Prebuilt(plan)),
        second is Err,
        p.label == label && final(a).label == label,
        c.kind == Some(LuaPlanKind::Coroutine(thread)),
        inner == Ok::<u64, String>(plan),
        refused is Err,
{
}

} // verus!
