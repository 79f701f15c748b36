//! The plans of the `bpp` namespace, which are made around other plans, and the tables of the
//! `bpt` namespace.

use vstd::prelude::*;
use vstd::string::*;

use crate::lua_bps::meta_arg;
use crate::lua_device::{LuaDevice, Role};
use crate::lua_msg::{
    lua_map, lua_table_to_json_md, lua_table_to_metadata, text_or, MetaTable,
};
use crate::lua_plan::{
    all_playing, arg_view, args_view, cannot_take, devs_of, law_devices_give_their_objects,
    lemma_args, players, wanted, wish, ArgView, LuaPlan, LuaPlanKind, PlanArg, PlanFn, PlanRequest, PlanWish,
};
use crate::lua_value::{out_view, pairs_view, LuaOut, LuaVal, OutView};
use crate::value::{Double, JsonView};

verus! {

/// What is made around a plan.
#[derive(Debug)]
pub enum BppCall {
    /// `run_wrapper(plan, md)`.
    RunWrapper(Option<MetaTable>),
    /// `inject_md(plan, md)`.
    InjectMd(Vec<(LuaVal, LuaVal)>),
    /// `rewindable(plan, on)`.
    Rewindable(bool),
    /// `monitor_during(plan, signals)`.
    MonitorDuring(Vec<LuaDevice>),
    /// `stage_wrapper(plan, devices)`.
    StageWrapper(Vec<LuaDevice>),
    /// `baseline_wrapper(plan, devices, stream)`.
    BaselineWrapper(Vec<LuaDevice>, Option<String>),
    /// `subs_wrapper(plan)`.
    SubsWrapper,
    /// `relative_set(plan, motors)`.
    RelativeSet(Vec<LuaDevice>),
    /// `reset_positions(plan, motors)`.
    ResetPositions(Vec<LuaDevice>),
    /// `print_summary(plan)`.
    PrintSummary,
    /// `msg_mutator(plan, f)`.
    MsgMutator(u64),
}

/// A plan around another one, with the objects that play a role.
pub open spec fn around_all(
    function: PlanFn,
    label: Seq<char>,
    p: u64,
    devs: Seq<LuaDevice>,
    role: Role,
) -> Result<PlanWish, Seq<char>> {
    match all_playing(devs, role) {
        Ok(v) => wanted(function, label, seq![ArgView::Plan(p), ArgView::Objects(v)]),
        Err(e) => Err(e),
    }
}

/// The plan that is made around the plan `p`, or what the script is told instead.
pub open spec fn around(p: u64, call: BppCall) -> Result<PlanWish, Seq<char>> {
    match call {
        BppCall::RunWrapper(t) => match meta_arg(t) {
            Ok(m) => wanted(PlanFn::RunWrapper, "run_wrapper"@, seq![ArgView::Plan(p), m]),
            Err(e) => Err(e),
        },
        BppCall::InjectMd(pairs) => match lua_map(pairs_view(pairs@), false) {
            Ok(m) => wanted(
                PlanFn::InjectMdWrapper,
                "inject_md"@,
                seq![ArgView::Plan(p), ArgView::Members(m)],
            ),
            Err(e) => Err(e),
        },
        BppCall::Rewindable(on) => wanted(
            PlanFn::RewindableWrapper,
            "rewindable_wrapper"@,
            seq![ArgView::Plan(p), ArgView::Flag(on)],
        ),
        BppCall::MonitorDuring(devs) => around_all(
            PlanFn::MonitorDuringWrapper,
            "monitor_during_wrapper"@,
            p,
            devs@,
            Role::Monitorable,
        ),
        BppCall::StageWrapper(devs) => around_all(
            PlanFn::StageWrapper,
            "stage_wrapper"@,
            p,
            devs@,
            Role::Stageable,
        ),
        BppCall::BaselineWrapper(devs, name) => match all_playing(devs@, Role::Readable) {
            Ok(v) => wanted(
                PlanFn::BaselineWrapper,
                "baseline_wrapper"@,
                seq![
                    ArgView::Plan(p),
                    ArgView::Objects(v),
                    ArgView::Text(text_or(name, "baseline"@)),
                ],
            ),
            Err(e) => Err(e),
        },
        BppCall::SubsWrapper => wanted(PlanFn::SubsWrapper, "subs_wrapper"@, seq![ArgView::Plan(p)]),
        BppCall::RelativeSet(devs) => around_all(
            PlanFn::RelativeSetWrapper,
            "relative_set_wrapper"@,
            p,
            devs@,
            Role::Locatable,
        ),
        BppCall::ResetPositions(devs) => around_all(
            PlanFn::ResetPositionsWrapper,
            "reset_positions_wrapper"@,
            p,
            devs@,
            Role::Locatable,
        ),
        BppCall::PrintSummary => wanted(
            PlanFn::PrintSummaryWrapper,
            "print_summary_wrapper"@,
            seq![ArgView::Plan(p)],
        ),
        BppCall::MsgMutator(f) => wanted(
            PlanFn::MsgMutator,
            "msg_mutator"@,
            seq![ArgView::Plan(p), ArgView::Function(f)],
        ),
    }
}

/// The plan that is made around what a script holds.
pub open spec fn bpp_wish(kind: Option<LuaPlanKind>, call: BppCall) -> Result<PlanWish, Seq<char>> {
    match kind {
        Some(LuaPlanKind::Prebuilt(p)) => around(p, call),
        _ => Err(cannot_take(kind)),
    }
}

/// A request for a plan.
fn request(function: PlanFn, label: &str, args: Vec<PlanArg>) -> (r: Result<PlanRequest, String>)
    ensures
        wish(r) == wanted(function, label@, args_view(args@)),
{
    Ok(PlanRequest { function, label: label.to_owned(), args })
}

/// A plan and one more argument.
fn with_plan(p: u64, a: PlanArg) -> (v: Vec<PlanArg>)
    ensures
        args_view(v@) == seq![ArgView::Plan(p), arg_view(a)],
{
    let v = vec![PlanArg::Plan(p), a];
    assert(args_view(v@) =~= seq![ArgView::Plan(p), arg_view(a)]);
    v
}

/// A plan alone.
fn plan_alone(p: u64) -> (v: Vec<PlanArg>)
    ensures
        args_view(v@) == seq![ArgView::Plan(p)],
{
    let v = vec![PlanArg::Plan(p)];
    assert(args_view(v@) =~= seq![ArgView::Plan(p)]);
    v
}

/// A request for a plan around another one, with the objects that play a role.
fn request_around(function: PlanFn, label: &str, p: u64, devs: &Vec<LuaDevice>, role: Role) -> (r:
    Result<PlanRequest, String>)
    ensures
        wish(r) == around_all(function, label@, p, devs@, role),
{
    match devs_of(devs, role) {
        Ok(v) => request(function, label, with_plan(p, PlanArg::Objects(v))),
        Err(e) => Err(e),
    }
}

/// Finds out which plan a script asks for around another one, which it uses up.
pub fn bpp_plan(plan: &mut LuaPlan, call: BppCall) -> (r: Result<PlanRequest, String>)
    ensures
        wish(r) == bpp_wish(old(plan).kind, call),
        final(plan).kind is None,
        final(plan).label == old(plan).label,
{
    let p = match plan.take_inner_plan() {
        Ok(p) => p,
        Err(e) => {
            return Err(e);
        },
    };
    match call {
        BppCall::RunWrapper(t) => match lua_table_to_metadata(t) {
            Ok(m) => request(PlanFn::RunWrapper, "run_wrapper", with_plan(p, PlanArg::Metadata(m))),
            Err(e) => Err(e),
        },
        BppCall::InjectMd(pairs) => match lua_table_to_json_md(&pairs) {
            Ok(m) => request(
                PlanFn::InjectMdWrapper,
                "inject_md",
                with_plan(p, PlanArg::Members(m)),
            ),
            Err(e) => Err(e),
        },
        BppCall::Rewindable(on) => request(
            PlanFn::RewindableWrapper,
            "rewindable_wrapper",
            with_plan(p, PlanArg::Flag(on)),
        ),
        BppCall::MonitorDuring(devs) => request_around(
            PlanFn::MonitorDuringWrapper,
            "monitor_during_wrapper",
            p,
            &devs,
            Role::Monitorable,
        ),
        BppCall::StageWrapper(devs) => request_around(
            PlanFn::StageWrapper,
            "stage_wrapper",
            p,
            &devs,
            Role::Stageable,
        ),
        BppCall::BaselineWrapper(devs, name) => match devs_of(&devs, Role::Readable) {
            Err(e) => Err(e),
            Ok(v) => {
                let name = match name {
                    Some(s) => s,
                    None => "baseline".to_owned(),
                };
                let args = vec![PlanArg::Plan(p), PlanArg::Objects(v), PlanArg::Text(name)];
                assert(args_view(args@) =~= around(p, call)->Ok_0.args);
                request(PlanFn::BaselineWrapper, "baseline_wrapper", args)
            },
        },
        BppCall::SubsWrapper => request(PlanFn::SubsWrapper, "subs_wrapper", plan_alone(p)),
        BppCall::RelativeSet(devs) => request_around(
            PlanFn::RelativeSetWrapper,
            "relative_set_wrapper",
            p,
            &devs,
            Role::Locatable,
        ),
        BppCall::ResetPositions(devs) => request_around(
            PlanFn::ResetPositionsWrapper,
            "reset_positions_wrapper",
            p,
            &devs,
            Role::Locatable,
        ),
        BppCall::PrintSummary => request(
            PlanFn::PrintSummaryWrapper,
            "print_summary_wrapper",
            plan_alone(p),
        ),
        BppCall::MsgMutator(f) => request(
            PlanFn::MsgMutator,
            "msg_mutator",
            with_plan(p, PlanArg::Function(f)),
        ),
    }
}

/// The plan of one plan and then another.
pub open spec fn pair_wish(
    function: PlanFn,
    label: Seq<char>,
    first: Option<LuaPlanKind>,
    second: Option<LuaPlanKind>,
) -> Result<PlanWish, Seq<char>> {
    match (first, second) {
        (Some(LuaPlanKind::Prebuilt(a)), Some(LuaPlanKind::Prebuilt(b))) => wanted(
            function,
            label,
            seq![ArgView::Plan(a), ArgView::Plan(b)],
        ),
        (Some(LuaPlanKind::Prebuilt(_)), _) => Err(cannot_take(second)),
        _ => Err(cannot_take(first)),
    }
}

/// The plan of a finalizer, or of a contingency.
pub open spec fn finalize_wish(
    plan: Option<LuaPlanKind>,
    end: Option<LuaPlanKind>,
    contingency: bool,
) -> Result<PlanWish, Seq<char>> {
    if contingency {
        pair_wish(PlanFn::ContingencyWrapper, "contingency_wrapper"@, plan, end)
    } else {
        pair_wish(PlanFn::FinalizeWrapper, "finalize_wrapper"@, plan, end)
    }
}

/// What `finalize_wrapper` (or, with `contingency`, `contingency`) asks for. It uses up the first
/// plan and, where that can be taken, the second one.
pub fn finalize_plan(plan: &mut LuaPlan, end: &mut LuaPlan, contingency: bool) -> (r: Result<
    PlanRequest,
    String,
>)
    ensures
        wish(r) == finalize_wish(old(plan).kind, old(end).kind, contingency),
        final(plan).kind is None,
        final(end).kind == if old(plan).kind matches Some(LuaPlanKind::Prebuilt(_)) {
            None
        } else {
            old(end).kind
        },
{
    let a = match plan.take_inner_plan() {
        Ok(p) => p,
        Err(e) => {
            return Err(e);
        },
    };
    let b = match end.take_inner_plan() {
        Ok(p) => p,
        Err(e) => {
            return Err(e);
        },
    };
    let args = with_plan(a, PlanArg::Plan(b));
    if contingency {
        request(PlanFn::ContingencyWrapper, "contingency_wrapper", args)
    } else {
        request(PlanFn::FinalizeWrapper, "finalize_wrapper", args)
    }
}

/// The finished plans among what a script holds, or what it is told where one is not finished.
pub open spec fn all_taken(plans: Seq<LuaPlan>) -> Result<Seq<u64>, Seq<char>>
    decreases plans.len(),
{
    if plans.len() == 0 {
        Ok(seq![])
    } else {
        match all_taken(plans.drop_last()) {
            Err(e) => Err(e),
            Ok(v) => match plans.last().kind {
                Some(LuaPlanKind::Prebuilt(p)) => Ok(v.push(p)),
                k => Err(cannot_take(k)),
            },
        }
    }
}

/// What fails on the first `n` plans fails alike on all of them.
proof fn lemma_taken_fails(plans: Seq<LuaPlan>, n: int)
    requires
        0 <= n <= plans.len(),
        all_taken(plans.take(n)) is Err,
    ensures
        all_taken(plans) == all_taken(plans.take(n)),
    decreases plans.len() - n,
{
    if n == plans.len() {
        assert(plans.take(n) =~= plans);
    } else {
        assert(plans.take(n + 1).drop_last() =~= plans.take(n));
        lemma_taken_fails(plans, n + 1);
    }
}

/// What `pchain` asks for. It uses up the plans one after the other, up to the first that cannot
/// be taken.
pub fn pchain_plan(plans: &mut Vec<LuaPlan>) -> (r: Result<PlanRequest, String>)
    ensures
        wish(r) == match all_taken(old(plans)@) {
            Ok(v) => wanted(PlanFn::Pchain, "pchain"@, seq![ArgView::Plans(v)]),
            Err(e) => Err(e),
        },
        final(plans)@.len() == old(plans)@.len(),
        forall|i: int|
            0 <= i < old(plans)@.len() ==> (#[trigger] final(plans)@[i]).kind == if all_taken(
                old(plans)@.take(i),
            ) is Ok {
                None
            } else {
                old(plans)@[i].kind
            },
{
    let ghost all = plans@;
    let mut out: Vec<u64> = Vec::new();
    let mut i: usize = 0;
    assert(all.take(0) =~= seq![]);
    while i < plans.len()
        invariant
            all == old(plans)@,
            plans@.len() == all.len(),
            i <= plans.len(),
            all_taken(all.take(i as int)) == Ok::<Seq<u64>, Seq<char>>(out@),
            forall|k: int| 0 <= k < i ==> (#[trigger] plans@[k]).kind is None,
            forall|k: int| i <= k < all.len() ==> #[trigger] plans@[k] == all[k],
            forall|k: int| 0 <= k <= i ==> all_taken(#[trigger] all.take(k)) is Ok,
        decreases plans.len() - i,
    {
        let ghost before = plans@;
        assert(all.take(i + 1).drop_last() =~= all.take(i as int));
        assert(all.take(i + 1).last() == all[i as int]);
        let mut p = LuaPlan { label: plans[i].label.clone(), kind: None };
        p.kind = plans[i].kind;
        let r = p.take_inner_plan();
        plans.set(i, p);
        match r {
            Ok(h) => {
                out.push(h);
            },
            Err(e) => {
                proof {
                    lemma_taken_fails(all, i + 1);
                    assert forall|k: int| 0 <= k < all.len() implies (#[trigger] plans@[k]).kind
                        == if all_taken(all.take(k)) is Ok {
                        None
                    } else {
                        all[k].kind
                    } by {
                        if k > i {
                            lemma_fails_on(all, i + 1, k);
                        }
                    }
                }
                return Err(e);
            },
        }
        i += 1;
    }
    assert(all.take(all.len() as int) =~= all);
    let args = vec![PlanArg::Plans(out)];
    assert(args_view(args@) =~= seq![ArgView::Plans(out@)]);
    request(PlanFn::Pchain, "pchain", args)
}

/// What fails on the first `n` plans fails on more of them too.
proof fn lemma_fails_on(plans: Seq<LuaPlan>, n: int, k: int)
    requires
        0 <= n <= k <= plans.len(),
        all_taken(plans.take(n)) is Err,
    ensures
        all_taken(plans.take(k)) is Err,
{
    assert(plans.take(k).take(n) =~= plans.take(n));
    lemma_taken_fails(plans.take(k), n);
}

/// A plan that has been made part of another one cannot be used again.
pub proof fn law_plan_is_used_once(call: BppCall)
    ensures
        bpp_wish(None, call) == Err::<PlanWish, Seq<char>>("plan was already consumed"@),
{
}

/// The table of a row of numbers.
pub open spec fn row_out(row: Seq<Double>) -> OutView {
    OutView::Items(row.map_values(|x: Double| OutView::Number(x)))
}

/// The table of rows of numbers.
pub open spec fn rows_out(rows: Seq<Vec<Double>>) -> OutView {
    OutView::Items(rows.map_values(|row: Vec<Double>| row_out(row@)))
}

/// The table of a row of numbers.
fn row_table(row: &Vec<Double>) -> (v: LuaOut)
    ensures
        v.deep_view() == row_out(row@),
{
    let mut items: Vec<LuaOut> = Vec::new();
    let mut i: usize = 0;
    while i < row.len()
        invariant
            i <= row.len(),
            items@.len() == i,
            forall|k: int|
                0 <= k < i ==> out_view(#[trigger] items@[k]) == OutView::Number(row@[k]),
        decreases row.len() - i,
    {
        items.push(LuaOut::Number(row[i]));
        i += 1;
    }
    let v = LuaOut::Items(items);
    assert(out_view(v)->Items_0 =~= row_out(row@)->Items_0);
    v
}

/// The table of rows of numbers.
pub fn nested_f64_to_lua_table(rows: &Vec<Vec<Double>>) -> (v: LuaOut)
    ensures
        v.deep_view() == rows_out(rows@),
{
    let mut items: Vec<LuaOut> = Vec::new();
    let mut i: usize = 0;
    while i < rows.len()
        invariant
            i <= rows.len(),
            items@.len() == i,
            forall|k: int| 0 <= k < i ==> out_view(#[trigger] items@[k]) == row_out(rows@[k]@),
        decreases rows.len() - i,
    {
        items.push(row_table(&rows[i]));
        i += 1;
    }
    let v = LuaOut::Items(items);
    assert(out_view(v)->Items_0 =~= rows_out(rows@)->Items_0);
    v
}

/// The table of pairs of numbers.
pub open spec fn pairs_out(pairs: Seq<(Double, Double)>) -> OutView {
    OutView::Items(pairs.map_values(|p: (Double, Double)| row_out(seq![p.0, p.1])))
}

/// The table of pairs of numbers.
pub fn pairs_to_lua_table(pairs: &Vec<(Double, Double)>) -> (v: LuaOut)
    ensures
        v.deep_view() == pairs_out(pairs@),
{
    let mut items: Vec<LuaOut> = Vec::new();
    let mut i: usize = 0;
    while i < pairs.len()
        invariant
            i <= pairs.len(),
            items@.len() == i,
            forall|k: int|
                0 <= k < i ==> out_view(#[trigger] items@[k]) == row_out(
                    seq![pairs@[k].0, pairs@[k].1],
                ),
        decreases pairs.len() - i,
    {
        let row = vec![pairs[i].0, pairs[i].1];
        assert(row@ =~= seq![pairs@[i as int].0, pairs@[i as int].1]);
        items.push(row_table(&row));
        i += 1;
    }
    let v = LuaOut::Items(items);
    assert(out_view(v)->Items_0 =~= pairs_out(pairs@)->Items_0);
    v
}

/// What is made around a plan is made around that plan: its handle is the first argument. The rest
/// is what the script gave, and the devices are the objects that play the role that is needed. Only
/// a finished plan that has not been used can be taken.
pub proof fn law_wrappers_keep_the_plan(
    kind: Option<LuaPlanKind>,
    call: BppCall,
    r: Result<PlanRequest, String>,
)
    requires
        wish(r) == bpp_wish(kind, call),
    ensures
        r is Ok ==> kind is Some && kind->0 is Prebuilt,
        r matches Ok(q) ==> q.args@.len() > 0 && q.args@[0] == PlanArg::Plan(kind->0->Prebuilt_0),
        match call {
            BppCall::MonitorDuring(devs) => {
                &&& r is Ok <==> kind is Some && kind->0 is Prebuilt && forall|i: int|
                    0 <= i < devs@.len() ==> (#[trigger] devs@[i]).monitorable is Some
                &&& r matches Ok(q) ==> q.function == PlanFn::MonitorDuringWrapper && q.args@.len() == 2
                    && (q.args@[1] matches PlanArg::Objects(v) && players(devs@, Role::Monitorable, v@))
            },
            BppCall::StageWrapper(devs) => {
                &&& r is Ok <==> kind is Some && kind->0 is Prebuilt && forall|i: int|
                    0 <= i < devs@.len() ==> (#[trigger] devs@[i]).stageable is Some
                &&& r matches Ok(q) ==> q.function == PlanFn::StageWrapper && q.args@.len() == 2
                    && (q.args@[1] matches PlanArg::Objects(v) && players(devs@, Role::Stageable, v@))
            },
            BppCall::RelativeSet(devs) => {
                &&& r is Ok <==> kind is Some && kind->0 is Prebuilt && forall|i: int|
                    0 <= i < devs@.len() ==> (#[trigger] devs@[i]).locatable is Some
                &&& r matches Ok(q) ==> q.function == PlanFn::RelativeSetWrapper && q.args@.len() == 2
                    && (q.args@[1] matches PlanArg::Objects(v) && players(devs@, Role::Locatable, v@))
            },
            BppCall::ResetPositions(devs) => {
                &&& r is Ok <==> kind is Some && kind->0 is Prebuilt && forall|i: int|
                    0 <= i < devs@.len() ==> (#[trigger] devs@[i]).locatable is Some
                &&& r matches Ok(q) ==> q.function == PlanFn::ResetPositionsWrapper && q.args@.len() == 2
                    && (q.args@[1] matches PlanArg::Objects(v) && players(devs@, Role::Locatable, v@))
            },
            BppCall::BaselineWrapper(devs, name) => {
                &&& r is Ok <==> kind is Some && kind->0 is Prebuilt && forall|i: int|
                    0 <= i < devs@.len() ==> (#[trigger] devs@[i]).readable is Some
                &&& r matches Ok(q) ==> q.function == PlanFn::BaselineWrapper && q.args@.len() == 3
                    && (q.args@[1] matches PlanArg::Objects(v) && players(
                    devs@,
                    Role::Readable,
                    v@,
                )) && (q.args@[2] matches PlanArg::Text(s) && match name {
                    Some(given) => s@ == given@,
                    None => s@ == "baseline"@,
                })
            },
            BppCall::Rewindable(on) => r matches Ok(q) ==> q.function == PlanFn::RewindableWrapper
                && q.args@.len() == 2 && q.args@[1] == PlanArg::Flag(on),
            BppCall::MsgMutator(f) => r matches Ok(q) ==> q.function == PlanFn::MsgMutator
                && q.args@.len() == 2 && q.args@[1] == PlanArg::Function(f),
            BppCall::SubsWrapper => r matches Ok(q) ==> q.function == PlanFn::SubsWrapper
                && q.args@.len() == 1,
            BppCall::PrintSummary => r matches Ok(q) ==> q.function == PlanFn::PrintSummaryWrapper
                && q.args@.len() == 1,
            BppCall::InjectMd(pairs) => r matches Ok(q) ==> q.function == PlanFn::InjectMdWrapper
                && q.args@.len() == 2 && (q.args@[1] matches PlanArg::Members(m) && lua_map(
                pairs_view(pairs@),
                false,
            ) == Ok::<Map<Seq<char>, JsonView>, Seq<char>>(m@)),
            BppCall::RunWrapper(Some(t)) => r matches Ok(q) ==> q.function == PlanFn::RunWrapper
                && q.args@.len() == 2 && (q.args@[1] matches PlanArg::Metadata(m) && m.scan_id
                == t.scan_id && lua_map(pairs_view(t.pairs@), true) == Ok::<
                Map<Seq<char>, JsonView>,
                Seq<char>,
            >(m.extra@) && match (m.plan_name, t.plan_name) {
                (Some(x), Some(y)) => x@ == y@,
                (None, None) => true,
                _ => false,
            }),
            BppCall::RunWrapper(None) => r matches Ok(q) ==> q.function == PlanFn::RunWrapper
                && q.args@.len() == 2 && (q.args@[1] matches PlanArg::Metadata(m) && m.plan_name
                is None && m.scan_id is None && m.extra@ == Map::<Seq<char>, JsonView>::empty()),
        },
{
    match call {
        BppCall::MonitorDuring(devs) => law_devices_give_their_objects(devs@, Role::Monitorable),
        BppCall::StageWrapper(devs) => law_devices_give_their_objects(devs@, Role::Stageable),
        BppCall::RelativeSet(devs) => law_devices_give_their_objects(devs@, Role::Locatable),
        BppCall::ResetPositions(devs) => law_devices_give_their_objects(devs@, Role::Locatable),
        BppCall::BaselineWrapper(devs, name) => law_devices_give_their_objects(
            devs@,
            Role::Readable,
        ),
        _ => {},
    }
    if r is Ok {
        lemma_args(r->Ok_0.args@);
    }
}

/// A finalizer or a contingency takes both plans, the one that is wrapped first and the one that
/// follows second; both have to be finished and unused.
pub proof fn law_finalizer_follows_the_plan(
    contingency: bool,
    first: Option<LuaPlanKind>,
    second: Option<LuaPlanKind>,
    r: Result<PlanRequest, String>,
)
    requires
        wish(r) == finalize_wish(first, second, contingency),
    ensures
        r is Ok <==> first is Some && first->0 is Prebuilt && second is Some && second->0
            is Prebuilt,
        r matches Ok(q) ==> q.function == (if contingency {
            PlanFn::ContingencyWrapper
        } else {
            PlanFn::FinalizeWrapper
        }) && q.args@.len() == 2 && q.args@[0] == PlanArg::Plan(first->0->Prebuilt_0) && q.args@[1] == PlanArg::Plan(
            second->0->Prebuilt_0,
        ),
{
    if r is Ok {
        lemma_args(r->Ok_0.args@);
    }
}

/// A chain takes the plans that it is given, all of them and in order; each has to be finished and
/// unused.
pub proof fn law_chain_takes_every_plan(plans: Seq<LuaPlan>)
    ensures
        all_taken(plans) is Ok <==> forall|i: int|
            0 <= i < plans.len() ==> (#[trigger] plans[i]).kind is Some && plans[i].kind->0
                is Prebuilt,
        all_taken(plans) matches Ok(v) ==> v.len() == plans.len() && forall|i: int|
            0 <= i < plans.len() ==> plans[i].kind == Some(LuaPlanKind::Prebuilt(#[trigger] v[i])),
    decreases plans.len(),
{
    if plans.len() > 0 {
        let rest = plans.drop_last();
        law_chain_takes_every_plan(rest);
        assert forall|i: int| 0 <= i < rest.len() implies #[trigger] plans[i] == rest[i] by {}
        let last = plans[plans.len() - 1];
        if all_taken(rest) is Err {
            let i = choose|i: int|
                0 <= i < rest.len() && !((#[trigger] rest[i]).kind is Some && rest[i].kind->0
                    is Prebuilt);
            assert(plans[i] == rest[i]);
        } else if all_taken(plans) is Ok {
            let v0 = all_taken(rest)->Ok_0;
            let v = all_taken(plans)->Ok_0;
            assert forall|i: int| 0 <= i < plans.len() implies plans[i].kind == Some(
                LuaPlanKind::Prebuilt(#[trigger] v[i]),
            ) by {
                if i < rest.len() {
                    assert(v[i] == v0[i]);
                }
            }
            assert forall|i: int| 0 <= i < plans.len() implies (#[trigger] plans[i]).kind is Some
                && plans[i].kind->0 is Prebuilt by {
                assert(plans[i].kind == Some(LuaPlanKind::Prebuilt(v[i])));
            }
        }
    }
}

/// A table of rows has the rows in order, each with its numbers in order; a table of pairs likewise.
pub proof fn law_tables_keep_their_numbers(rows: Vec<Vec<Double>>, pairs: Vec<(Double, Double)>, a: LuaOut, b: LuaOut)
    requires
        call_ensures(nested_f64_to_lua_table, (&rows,), a),
        call_ensures(pairs_to_lua_table, (&pairs,), b),
    ensures
        a.deep_view() matches OutView::Items(v) && v.len() == rows@.len() && forall|i: int|
            0 <= i < rows@.len() ==> ((#[trigger] v[i]) matches OutView::Items(w) && w.len()
                == rows@[i]@.len() && forall|j: int|
                0 <= j < w.len() ==> #[trigger] w[j] == OutView::Number(rows@[i]@[j])),
        b.deep_view() matches OutView::Items(v) && v.len() == pairs@.len() && forall|i: int|
            0 <= i < pairs@.len() ==> ((#[trigger] v[i]) matches OutView::Items(w) && w.len() == 2
                && w[0] == OutView::Number(pairs@[i].0) && w[1] == OutView::Number(pairs@[i].1)),
{
}

/// Wrappers use the plan up, and ask for what they are said to ask for.
pub proof fn law_wrappers_use_the_plan_up(plan: &mut LuaPlan, call: BppCall, r: Result<PlanRequest, String>)
    requires
        call_ensures(bpp_plan, (plan, call), r),
    ensures
        final(plan).kind is None,
        wish(r) == bpp_wish(old(plan).kind, call),
{
}

} // verus!
