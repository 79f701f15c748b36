//! The plans of the `bp` namespace.

use vstd::prelude::*;
use vstd::string::*;

use crate::device::DynLocation;
use crate::error::{CirrusError, Span};
use crate::lua_device::{not_playing, player, LuaDevice, Role};
use crate::lua_plan::{
    all_playing, arg_view, args_view, axes_of, both_of, both_playing, cannot_take, devs_of,
    law_devices_give_their_objects, law_tables_give_their_axes, lemma_args, number_label, numbered,
    players, tables_to_axes, wanted, wish, ArgView, AxisTable, GridAxis, LuaPlan, LuaPlanKind, PlanArg,
    PlanFn, PlanRequest, PlanWish,
};
use crate::msg::ObjRef;
use crate::value::Double;

verus! {

/// A call of a function of the `bp` namespace.
#[derive(Debug)]
#[allow(inconsistent_fields)]
pub enum BpCall {
    /// `count(detectors, num)`.
    Count {
        /// The detectors.
        dets: Vec<LuaDevice>,
        /// The number of points.
        num: u64,
    },
    /// `count_with_trigger(detectors, triggers, num)`.
    CountWithTrigger {
        /// The detectors.
        dets: Vec<LuaDevice>,
        /// What is triggered.
        trigs: Vec<LuaDevice>,
        /// The number of points.
        num: u64,
    },
    /// `scan(detectors, motor, start, stop, num)`, or its logarithmic form.
    Scan {
        /// Whether the steps are logarithmic.
        log: bool,
        /// The detectors.
        dets: Vec<LuaDevice>,
        /// The motor.
        motor: LuaDevice,
        /// Where it starts.
        start: Double,
        /// Where it stops.
        stop: Double,
        /// The number of points.
        num: u64,
    },
    /// `list_scan(detectors, motor, points)`.
    ListScan {
        /// The detectors.
        dets: Vec<LuaDevice>,
        /// The motor.
        motor: LuaDevice,
        /// Where it goes.
        points: Vec<Double>,
    },
    /// `rel_scan(detectors, motor, start, stop, num)`.
    RelScan {
        /// The detectors.
        dets: Vec<LuaDevice>,
        /// The motor.
        motor: LuaDevice,
        /// Where the motor was found to be.
        found: Result<DynLocation, CirrusError>,
        /// Where it starts.
        start: Double,
        /// Where it stops.
        stop: Double,
        /// The number of points.
        num: u64,
    },
    /// `rel_list_scan(detectors, motor, points)`.
    RelListScan {
        /// The detectors.
        dets: Vec<LuaDevice>,
        /// The motor.
        motor: LuaDevice,
        /// Where it goes.
        points: Vec<Double>,
    },
    /// `grid_scan(detectors, axes)`, or its relative form.
    GridScan {
        /// Whether positions are relative.
        relative: bool,
        /// The detectors.
        dets: Vec<LuaDevice>,
        /// The outer axis.
        outer: GridAxis,
        /// The inner axis.
        inner: GridAxis,
    },
    /// `list_grid_scan(detectors, axes)`.
    ListGridScan {
        /// The detectors.
        dets: Vec<LuaDevice>,
        /// The axes.
        axes: Vec<AxisTable>,
    },
    /// `inner_product_scan(detectors, num, axes)`.
    InnerProductScan {
        /// The detectors.
        dets: Vec<LuaDevice>,
        /// The number of points.
        num: u64,
        /// The axes.
        axes: Vec<AxisTable>,
    },
    /// `scan_nd(detectors, axes, points)`.
    ScanNd {
        /// The detectors.
        dets: Vec<LuaDevice>,
        /// The axes.
        axes: Vec<AxisTable>,
        /// The points.
        points: Vec<Vec<Double>>,
    },
    /// `spiral`, `spiral_square` or `spiral_fermat`, with what fixes their form.
    Spiral {
        /// The detectors.
        dets: Vec<LuaDevice>,
        /// The horizontal motor.
        x: LuaDevice,
        /// The vertical motor.
        y: LuaDevice,
        /// What fixes the form.
        form: SpiralForm,
    },
    /// `fly(..)`.
    Fly,
}

/// What fixes the form of a spiral.
#[derive(Debug)]
#[allow(inconsistent_fields)]
pub enum SpiralForm {
    /// An even spiral: centre, ranges, step of the radius, and points per ring.
    Even {
        /// Centre and ranges.
        frame: [Double; 4],
        /// Step of the radius.
        dr: Double,
        /// Points per ring.
        nth: u64,
    },
    /// A square spiral: centre, ranges, and points along both axes.
    Square {
        /// Centre and ranges.
        frame: [Double; 4],
        /// Points along the horizontal axis.
        x_num: u64,
        /// Points along the vertical axis.
        y_num: u64,
    },
    /// A spiral by the golden angle: centre, ranges, step of the radius, and a factor.
    Fermat {
        /// Centre and ranges.
        frame: [Double; 4],
        /// Step of the radius.
        dr: Double,
        /// The factor.
        factor: Double,
    },
}

/// Where a relative scan starts from: where the motor was found to be, or zero where it was not
/// found.
pub open spec fn origin(found: Result<DynLocation, CirrusError>) -> Double {
    match found {
        Ok(l) => l.readback,
        Err(_) => Double { bits: 0 },
    }
}

/// The plan of a grid scan.
pub open spec fn grid_wish(relative: bool, dets: Seq<ObjRef>, outer: GridAxis, inner: GridAxis) -> Result<PlanWish, Seq<char>> {
    let role = if relative {
        Role::Locatable
    } else {
        Role::Movable
    };
    match (
        both_playing(outer.motor, role, Role::Readable),
        both_playing(inner.motor, role, Role::Readable),
    ) {
        (Err(e), _) => Err(e),
        (_, Err(e)) => Err(e),
        (Ok((m1, r1)), Ok((m2, r2))) => wanted(
            if relative {
                PlanFn::RelGridScan
            } else {
                PlanFn::GridScan
            },
            if relative {
                "rel_grid_scan"@
            } else {
                "grid_scan"@
            },
            seq![
                ArgView::Objects(dets),
                ArgView::Object(m1),
                ArgView::Object(r1),
                ArgView::Number(outer.start),
                ArgView::Number(outer.stop),
                ArgView::Count(outer.num),
                ArgView::Object(m2),
                ArgView::Object(r2),
                ArgView::Number(inner.start),
                ArgView::Number(inner.stop),
                ArgView::Count(inner.num),
            ],
        ),
    }
}

/// The plan of a spiral.
pub open spec fn spiral_wish(
    dets: Seq<ObjRef>,
    x: (ObjRef, ObjRef),
    y: (ObjRef, ObjRef),
    form: SpiralForm,
) -> PlanWish {
    let motors = seq![
        ArgView::Objects(dets),
        ArgView::Object(x.0),
        ArgView::Object(x.1),
        ArgView::Object(y.0),
        ArgView::Object(y.1),
    ];
    match form {
        SpiralForm::Even { frame, dr, nth } => PlanWish {
            function: PlanFn::Spiral,
            label: "spiral"@,
            args: motors + seq![
                ArgView::Number(frame[0]),
                ArgView::Number(frame[1]),
                ArgView::Number(frame[2]),
                ArgView::Number(frame[3]),
                ArgView::Number(dr),
                ArgView::Count(nth),
            ],
        },
        SpiralForm::Square { frame, x_num, y_num } => PlanWish {
            function: PlanFn::SpiralSquare,
            label: "spiral_square"@,
            args: motors + seq![
                ArgView::Number(frame[0]),
                ArgView::Number(frame[1]),
                ArgView::Number(frame[2]),
                ArgView::Number(frame[3]),
                ArgView::Count(x_num),
                ArgView::Count(y_num),
            ],
        },
        SpiralForm::Fermat { frame, dr, factor } => PlanWish {
            function: PlanFn::SpiralFermat,
            label: "spiral_fermat"@,
            args: motors + seq![
                ArgView::Number(frame[0]),
                ArgView::Number(frame[1]),
                ArgView::Number(frame[2]),
                ArgView::Number(frame[3]),
                ArgView::Number(dr),
                ArgView::Number(factor),
            ],
        },
    }
}

/// The plan that a call asks for, or what the script is told where a device does not play a role
/// that the plan needs.
pub open spec fn bp_wish(call: BpCall) -> Result<PlanWish, Seq<char>> {
    match call {
        BpCall::Count { dets, num } => match all_playing(dets@, Role::Readable) {
            Err(e) => Err(e),
            Ok(d) => wanted(
                PlanFn::Count,
                numbered("count"@, num),
                seq![ArgView::Objects(d), ArgView::Count(num)],
            ),
        },
        BpCall::CountWithTrigger { dets, trigs, num } => match (
            all_playing(dets@, Role::Readable),
            all_playing(trigs@, Role::Triggerable),
        ) {
            (Err(e), _) => Err(e),
            (_, Err(e)) => Err(e),
            (Ok(d), Ok(t)) => wanted(
                PlanFn::CountWithTrigger,
                numbered("count_with_trigger"@, num),
                seq![ArgView::Objects(d), ArgView::Objects(t), ArgView::Count(num)],
            ),
        },
        BpCall::Scan { log, dets, motor, start, stop, num } => match (
            both_playing(motor, Role::Movable, Role::Readable),
            all_playing(dets@, Role::Readable),
        ) {
            (Err(e), _) => Err(e),
            (_, Err(e)) => Err(e),
            (Ok((m, r)), Ok(d)) => wanted(
                if log {
                    PlanFn::LogScan
                } else {
                    PlanFn::Scan
                },
                numbered(
                    if log {
                        "log_scan"@
                    } else {
                        "scan"@
                    },
                    num,
                ),
                seq![
                    ArgView::Objects(d),
                    ArgView::Object(m),
                    ArgView::Object(r),
                    ArgView::Number(start),
                    ArgView::Number(stop),
                    ArgView::Count(num),
                ],
            ),
        },
        BpCall::ListScan { dets, motor, points } => match (
            both_playing(motor, Role::Movable, Role::Readable),
            all_playing(dets@, Role::Readable),
        ) {
            (Err(e), _) => Err(e),
            (_, Err(e)) => Err(e),
            (Ok((m, r)), Ok(d)) => wanted(
                PlanFn::ListScan,
                "list_scan"@,
                seq![
                    ArgView::Objects(d),
                    ArgView::Object(m),
                    ArgView::Object(r),
                    ArgView::Numbers(points@),
                ],
            ),
        },
        BpCall::RelScan { dets, motor, found, start, stop, num } => match (
            both_playing(motor, Role::Movable, Role::Readable),
            player(motor, Role::Locatable),
            all_playing(dets@, Role::Readable),
        ) {
            (Err(e), _, _) => Err(e),
            (_, None, _) => Err(not_playing(motor, Role::Locatable)),
            (_, _, Err(e)) => Err(e),
            (Ok((m, r)), Some(_), Ok(d)) => wanted(
                PlanFn::RelScan,
                numbered("rel_scan"@, num),
                seq![
                    ArgView::Objects(d),
                    ArgView::Object(m),
                    ArgView::Object(r),
                    ArgView::Number(origin(found)),
                    ArgView::Number(start),
                    ArgView::Number(stop),
                    ArgView::Count(num),
                ],
            ),
        },
        BpCall::RelListScan { dets, motor, points } => match (
            both_playing(motor, Role::Locatable, Role::Readable),
            all_playing(dets@, Role::Readable),
        ) {
            (Err(e), _) => Err(e),
            (_, Err(e)) => Err(e),
            (Ok((l, r)), Ok(d)) => wanted(
                PlanFn::RelListScan,
                "rel_list_scan"@,
                seq![
                    ArgView::Objects(d),
                    ArgView::Object(l),
                    ArgView::Object(r),
                    ArgView::Numbers(points@),
                ],
            ),
        },
        BpCall::GridScan { relative, dets, outer, inner } => match all_playing(
            dets@,
            Role::Readable,
        ) {
            Err(e) => Err(e),
            Ok(d) => grid_wish(relative, d, outer, inner),
        },
        BpCall::ListGridScan { dets, axes } => match (
            all_playing(dets@, Role::Readable),
            axes_of(axes@),
        ) {
            (Err(e), _) => Err(e),
            (_, Err(e)) => Err(e),
            (Ok(d), Ok(a)) => wanted(
                PlanFn::ListGridScan,
                "list_grid_scan"@,
                seq![ArgView::Objects(d), ArgView::Axes(a)],
            ),
        },
        BpCall::InnerProductScan { dets, num, axes } => match (
            all_playing(dets@, Role::Readable),
            axes_of(axes@),
        ) {
            (Err(e), _) => Err(e),
            (_, Err(e)) => Err(e),
            (Ok(d), Ok(a)) => wanted(
                PlanFn::InnerProductScan,
                numbered("inner_product_scan"@, num),
                seq![ArgView::Objects(d), ArgView::Count(num), ArgView::Axes(a)],
            ),
        },
        BpCall::ScanNd { dets, axes, points } => match (
            all_playing(dets@, Role::Readable),
            axes_of(axes@),
        ) {
            (Err(e), _) => Err(e),
            (_, Err(e)) => Err(e),
            (Ok(d), Ok(a)) => wanted(
                PlanFn::ScanNd,
                numbered("scan_nd"@, points@.len() as u64),
                seq![ArgView::Objects(d), ArgView::Axes(a), ArgView::Points(points@)],
            ),
        },
        BpCall::Spiral { dets, x, y, form } => match (
            both_playing(x, Role::Movable, Role::Readable),
            both_playing(y, Role::Movable, Role::Readable),
            all_playing(dets@, Role::Readable),
        ) {
            (Err(e), _, _) => Err(e),
            (_, Err(e), _) => Err(e),
            (_, _, Err(e)) => Err(e),
            (Ok(xm), Ok(ym), Ok(d)) => Ok(spiral_wish(d, xm, ym, form)),
        },
        BpCall::Fly => Err(
            "bp.fly is not yet wired through Lua (needs CollectableObj wrapper). Use a coroutine plan with msg.kickoff/complete/collect instead."@,
        ),
    }
}

/// A request for a plan.
fn request(function: PlanFn, label: String, args: Vec<PlanArg>) -> (r: Result<PlanRequest, String>)
    ensures
        wish(r) == wanted(function, label@, args_view(args@)),
{
    Ok(PlanRequest { function, label, args })
}

/// The detectors first, then a motor: its two objects.
fn grid(relative: bool, dets: Vec<ObjRef>, outer: &GridAxis, inner: &GridAxis) -> (r: Result<
    PlanRequest,
    String,
>)
    ensures
        wish(r) == grid_wish(relative, dets@, *outer, *inner),
{
    let role = if relative {
        Role::Locatable
    } else {
        Role::Movable
    };
    let (m1, r1) = match both_of(&outer.motor, role, Role::Readable) {
        Ok(p) => p,
        Err(e) => {
            return Err(e);
        },
    };
    let (m2, r2) = match both_of(&inner.motor, role, Role::Readable) {
        Ok(p) => p,
        Err(e) => {
            return Err(e);
        },
    };
    let args = vec![
        PlanArg::Objects(dets),
        PlanArg::Object(m1),
        PlanArg::Object(r1),
        PlanArg::Number(outer.start),
        PlanArg::Number(outer.stop),
        PlanArg::Count(outer.num),
        PlanArg::Object(m2),
        PlanArg::Object(r2),
        PlanArg::Number(inner.start),
        PlanArg::Number(inner.stop),
        PlanArg::Count(inner.num),
    ];
    assert(args_view(args@) =~= grid_wish(relative, dets@, *outer, *inner)->Ok_0.args);
    if relative {
        request(PlanFn::RelGridScan, "rel_grid_scan".to_owned(), args)
    } else {
        request(PlanFn::GridScan, "grid_scan".to_owned(), args)
    }
}

/// The plan of a spiral.
fn spiral(
    dets: Vec<ObjRef>,
    x: (ObjRef, ObjRef),
    y: (ObjRef, ObjRef),
    form: &SpiralForm,
) -> (r: Result<PlanRequest, String>)
    ensures
        wish(r) == Ok::<PlanWish, Seq<char>>(spiral_wish(dets@, x, y, *form)),
{
    let mut args = vec![
        PlanArg::Objects(dets),
        PlanArg::Object(x.0),
        PlanArg::Object(x.1),
        PlanArg::Object(y.0),
        PlanArg::Object(y.1),
    ];
    let frame = match form {
        SpiralForm::Even { frame, .. } => frame,
        SpiralForm::Square { frame, .. } => frame,
        SpiralForm::Fermat { frame, .. } => frame,
    };
    args.push(PlanArg::Number(frame[0]));
    args.push(PlanArg::Number(frame[1]));
    args.push(PlanArg::Number(frame[2]));
    args.push(PlanArg::Number(frame[3]));
    match form {
        SpiralForm::Even { dr, nth, .. } => {
            args.push(PlanArg::Number(*dr));
            args.push(PlanArg::Count(*nth));
            assert(args_view(args@) =~= spiral_wish(dets@, x, y, *form).args);
            request(PlanFn::Spiral, "spiral".to_owned(), args)
        },
        SpiralForm::Square { x_num, y_num, .. } => {
            args.push(PlanArg::Count(*x_num));
            args.push(PlanArg::Count(*y_num));
            assert(args_view(args@) =~= spiral_wish(dets@, x, y, *form).args);
            request(PlanFn::SpiralSquare, "spiral_square".to_owned(), args)
        },
        SpiralForm::Fermat { dr, factor, .. } => {
            args.push(PlanArg::Number(*dr));
            args.push(PlanArg::Number(*factor));
            assert(args_view(args@) =~= spiral_wish(dets@, x, y, *form).args);
            request(PlanFn::SpiralFermat, "spiral_fermat".to_owned(), args)
        },
    }
}

/// Finds out which plan a call asks for.
pub fn bp_plan(call: BpCall) -> (r: Result<PlanRequest, String>)
    ensures
        wish(r) == bp_wish(call),
{
    match call {
        BpCall::Count { dets, num } => match devs_of(&dets, Role::Readable) {
            Err(e) => Err(e),
            Ok(d) => {
                let args = vec![PlanArg::Objects(d), PlanArg::Count(num)];
                assert(args_view(args@) =~= bp_wish(call)->Ok_0.args);
                request(PlanFn::Count, number_label("count", num), args)
            },
        },
        BpCall::CountWithTrigger { dets, trigs, num } => match devs_of(&dets, Role::Readable) {
            Err(e) => Err(e),
            Ok(d) => match devs_of(&trigs, Role::Triggerable) {
                Err(e) => Err(e),
                Ok(t) => {
                    let args = vec![
                        PlanArg::Objects(d),
                        PlanArg::Objects(t),
                        PlanArg::Count(num),
                    ];
                    assert(args_view(args@) =~= bp_wish(call)->Ok_0.args);
                    request(
                        PlanFn::CountWithTrigger,
                        number_label("count_with_trigger", num),
                        args,
                    )
                },
            },
        },
        BpCall::Scan { log, dets, motor, start, stop, num } => match both_of(
            &motor,
            Role::Movable,
            Role::Readable,
        ) {
            Err(e) => Err(e),
            Ok((m, o)) => match devs_of(&dets, Role::Readable) {
                Err(e) => Err(e),
                Ok(d) => {
                    let args = vec![
                        PlanArg::Objects(d),
                        PlanArg::Object(m),
                        PlanArg::Object(o),
                        PlanArg::Number(start),
                        PlanArg::Number(stop),
                        PlanArg::Count(num),
                    ];
                    assert(args_view(args@) =~= bp_wish(call)->Ok_0.args);
                    if log {
                        request(PlanFn::LogScan, number_label("log_scan", num), args)
                    } else {
                        request(PlanFn::Scan, number_label("scan", num), args)
                    }
                },
            },
        },
        BpCall::ListScan { dets, motor, points } => match both_of(
            &motor,
            Role::Movable,
            Role::Readable,
        ) {
            Err(e) => Err(e),
            Ok((m, o)) => match devs_of(&dets, Role::Readable) {
                Err(e) => Err(e),
                Ok(d) => {
                    let args = vec![
                        PlanArg::Objects(d),
                        PlanArg::Object(m),
                        PlanArg::Object(o),
                        PlanArg::Numbers(points),
                    ];
                    assert(args_view(args@) =~= bp_wish(call)->Ok_0.args);
                    request(PlanFn::ListScan, "list_scan".to_owned(), args)
                },
            },
        },
        BpCall::RelScan { dets, motor, found, start, stop, num } => match both_of(
            &motor,
            Role::Movable,
            Role::Readable,
        ) {
            Err(e) => Err(e),
            Ok((m, o)) => match motor.need(Role::Locatable) {
                Err(e) => Err(e),
                Ok(_) => match devs_of(&dets, Role::Readable) {
                    Err(e) => Err(e),
                    Ok(d) => {
                        let current = match &found {
                            Ok(l) => l.readback,
                            Err(_) => Double { bits: 0 },
                        };
                        let args = vec![
                            PlanArg::Objects(d),
                            PlanArg::Object(m),
                            PlanArg::Object(o),
                            PlanArg::Number(current),
                            PlanArg::Number(start),
                            PlanArg::Number(stop),
                            PlanArg::Count(num),
                        ];
                        assert(args_view(args@) =~= bp_wish(call)->Ok_0.args);
                        request(PlanFn::RelScan, number_label("rel_scan", num), args)
                    },
                },
            },
        },
        BpCall::RelListScan { dets, motor, points } => match both_of(
            &motor,
            Role::Locatable,
            Role::Readable,
        ) {
            Err(e) => Err(e),
            Ok((l, o)) => match devs_of(&dets, Role::Readable) {
                Err(e) => Err(e),
                Ok(d) => {
                    let args = vec![
                        PlanArg::Objects(d),
                        PlanArg::Object(l),
                        PlanArg::Object(o),
                        PlanArg::Numbers(points),
                    ];
                    assert(args_view(args@) =~= bp_wish(call)->Ok_0.args);
                    request(PlanFn::RelListScan, "rel_list_scan".to_owned(), args)
                },
            },
        },
        BpCall::GridScan { relative, dets, outer, inner } => match devs_of(&dets, Role::Readable) {
            Err(e) => Err(e),
            Ok(d) => grid(relative, d, &outer, &inner),
        },
        BpCall::ListGridScan { dets, axes } => match devs_of(&dets, Role::Readable) {
            Err(e) => Err(e),
            Ok(d) => match tables_to_axes(&axes) {
                Err(e) => Err(e),
                Ok(a) => {
                    let args = vec![PlanArg::Objects(d), PlanArg::Axes(a)];
                    assert(args_view(args@) =~= bp_wish(call)->Ok_0.args);
                    request(PlanFn::ListGridScan, "list_grid_scan".to_owned(), args)
                },
            },
        },
        BpCall::InnerProductScan { dets, num, axes } => match devs_of(&dets, Role::Readable) {
            Err(e) => Err(e),
            Ok(d) => match tables_to_axes(&axes) {
                Err(e) => Err(e),
                Ok(a) => {
                    let args = vec![PlanArg::Objects(d), PlanArg::Count(num), PlanArg::Axes(a)];
                    assert(args_view(args@) =~= bp_wish(call)->Ok_0.args);
                    request(
                        PlanFn::InnerProductScan,
                        number_label("inner_product_scan", num),
                        args,
                    )
                },
            },
        },
        BpCall::ScanNd { dets, axes, points } => match devs_of(&dets, Role::Readable) {
            Err(e) => Err(e),
            Ok(d) => match tables_to_axes(&axes) {
                Err(e) => Err(e),
                Ok(a) => {
                    let n: u64 = points.len() as u64;
                    let args = vec![PlanArg::Objects(d), PlanArg::Axes(a), PlanArg::Points(points)];
                    assert(args_view(args@) =~= bp_wish(call)->Ok_0.args);
                    request(PlanFn::ScanNd, number_label("scan_nd", n), args)
                },
            },
        },
        BpCall::Spiral { dets, x, y, form } => match both_of(&x, Role::Movable, Role::Readable) {
            Err(e) => Err(e),
            Ok(xm) => match both_of(&y, Role::Movable, Role::Readable) {
                Err(e) => Err(e),
                Ok(ym) => match devs_of(&dets, Role::Readable) {
                    Err(e) => Err(e),
                    Ok(d) => spiral(d, xm, ym, &form),
                },
            },
        },
        BpCall::Fly => Err(
            "bp.fly is not yet wired through Lua (needs CollectableObj wrapper). Use a coroutine plan with msg.kickoff/complete/collect instead.".to_owned(),
        ),
    }
}

/// The plan of a ramp around a plan that is made part of it, given how that was taken out.
pub open spec fn ramp_wish(
    go: Option<LuaPlanKind>,
    dets: Seq<LuaDevice>,
    period: Span,
    samples: u64,
) -> Result<PlanWish, Seq<char>> {
    match (go, all_playing(dets, Role::Readable)) {
        (Some(LuaPlanKind::Prebuilt(_)), Err(e)) => Err(e),
        (Some(LuaPlanKind::Prebuilt(p)), Ok(d)) => wanted(
            PlanFn::RampPlan,
            numbered("ramp_plan"@, samples),
            seq![
                ArgView::Plan(p),
                ArgView::Objects(d),
                ArgView::Time(period),
                ArgView::Count(samples),
            ],
        ),
        _ => Err(cannot_take(go)),
    }
}

/// Finds out which plan `ramp_plan` asks for. It uses up the plan that it is given.
pub fn ramp_plan(go: &mut LuaPlan, dets: &Vec<LuaDevice>, period: Span, samples: u64) -> (r: Result<
    PlanRequest,
    String,
>)
    ensures
        wish(r) == ramp_wish(old(go).kind, dets@, period, samples),
        final(go).kind is None,
        final(go).label == old(go).label,
{
    let p = match go.take_inner_plan() {
        Ok(p) => p,
        Err(e) => {
            return Err(e);
        },
    };
    match devs_of(dets, Role::Readable) {
        Err(e) => Err(e),
        Ok(d) => {
            let args = vec![
                PlanArg::Plan(p),
                PlanArg::Objects(d),
                PlanArg::Time(period),
                PlanArg::Count(samples),
            ];
            assert(args_view(args@) =~= ramp_wish(
                old(go).kind,
                dets@,
                period,
                samples,
            )->Ok_0.args);
            request(PlanFn::RampPlan, number_label("ramp_plan", samples), args)
        },
    }
}

/// The object that a relative scan asks where the motor is, before it is planned.
pub fn rel_scan_asks(motor: &LuaDevice) -> (r: Result<ObjRef, String>)
    ensures
        match (
            both_playing(*motor, Role::Movable, Role::Readable),
            player(*motor, Role::Locatable),
        ) {
            (Err(e), _) => r matches Err(s) && s@ == e,
            (_, None) => r matches Err(s) && s@ == not_playing(*motor, Role::Locatable),
            (Ok(_), Some(o)) => r == Ok::<ObjRef, String>(o),
        },
{
    match both_of(motor, Role::Movable, Role::Readable) {
        Err(e) => Err(e),
        Ok(_) => motor.need(Role::Locatable),
    }
}

/// Whether an argument is the objects by which the devices are read, in order.
pub open spec fn reads_devices(a: PlanArg, dets: Seq<LuaDevice>) -> bool {
    a matches PlanArg::Objects(v) && players(dets, Role::Readable, v@)
}

/// What a scan along one motor asks for: the detectors, what moves the motor and what reads it,
/// where the motor starts, where it stops, and the number of points, in these places. A logarithmic
/// scan asks for the same. It is asked for where the motor can be moved and read and every detector
/// can be read.
pub proof fn law_scan_goes_from_start_to_stop(
    log: bool,
    dets: Vec<LuaDevice>,
    motor: LuaDevice,
    start: Double,
    stop: Double,
    num: u64,
    r: Result<PlanRequest, String>,
)
    requires
        call_ensures(bp_plan, (BpCall::Scan { log, dets, motor, start, stop, num },), r),
    ensures
        r matches Ok(q) ==> {
            &&& q.function == if log {
                PlanFn::LogScan
            } else {
                PlanFn::Scan
            }
            &&& q.args@.len() == 6
            &&& reads_devices(q.args@[0], dets@)
            &&& q.args@[1] == PlanArg::Object(motor.movable->0)
            &&& q.args@[2] == PlanArg::Object(motor.readable->0)
            &&& q.args@[3] == PlanArg::Number(start)
            &&& q.args@[4] == PlanArg::Number(stop)
            &&& q.args@[5] == PlanArg::Count(num)
        },
        r is Ok <==> motor.movable is Some && motor.readable is Some && forall|i: int|
            0 <= i < dets@.len() ==> (#[trigger] dets@[i]).readable is Some,
{
    law_devices_give_their_objects(dets@, Role::Readable);
    if r is Ok {
        let q = r->Ok_0;
        lemma_args(q.args@);
    }
}

/// Whether every device can be read.
pub open spec fn all_readable(dets: Seq<LuaDevice>) -> bool {
    forall|i: int| 0 <= i < dets.len() ==> (#[trigger] dets[i]).readable is Some
}

/// Whether an argument is the axes that the tables describe, in order.
pub open spec fn goes_along(a: PlanArg, rows: Seq<AxisTable>) -> bool {
    a matches PlanArg::Axes(v) && v@.len() == rows.len() && forall|i: int|
        0 <= i < rows.len() ==> {
            &&& (#[trigger] v@[i]).movable == rows[i].motor.movable->0
            &&& v@[i].readable == rows[i].motor.readable->0
            &&& v@[i].at@ == rows[i].at@
        }
}

/// Whether every motor can be moved and read.
pub open spec fn all_scannable(rows: Seq<AxisTable>) -> bool {
    forall|i: int|
        0 <= i < rows.len() ==> (#[trigger] rows[i]).motor.movable is Some
            && rows[i].motor.readable is Some
}

/// A count asks for its detectors and its number of points; with triggers, for what is triggered
/// between the two. It is asked for where each device plays its role.
pub proof fn law_count_reads_its_detectors(call: BpCall, r: Result<PlanRequest, String>)
    requires
        call_ensures(bp_plan, (call,), r),
    ensures
        match call {
            BpCall::Count { dets, num } => {
                &&& r is Ok <==> all_readable(dets@)
                &&& r matches Ok(q) ==> {
                    &&& q.function == PlanFn::Count
                    &&& q.args@.len() == 2
                    &&& reads_devices(q.args@[0], dets@)
                    &&& q.args@[1] == PlanArg::Count(num)
                }
            },
            BpCall::CountWithTrigger { dets, trigs, num } => {
                &&& r is Ok <==> all_readable(dets@) && forall|i: int|
                    0 <= i < trigs@.len() ==> (#[trigger] trigs@[i]).triggerable is Some
                &&& r matches Ok(q) ==> {
                    &&& q.function == PlanFn::CountWithTrigger
                    &&& q.args@.len() == 3
                    &&& reads_devices(q.args@[0], dets@)
                    &&& q.args@[1] matches PlanArg::Objects(t) && players(
                        trigs@,
                        Role::Triggerable,
                        t@,
                    )
                    &&& q.args@[2] == PlanArg::Count(num)
                }
            },
            _ => true,
        },
{
    match call {
        BpCall::Count { dets, num } => {
            law_devices_give_their_objects(dets@, Role::Readable);
        },
        BpCall::CountWithTrigger { dets, trigs, num } => {
            law_devices_give_their_objects(dets@, Role::Readable);
            law_devices_give_their_objects(trigs@, Role::Triggerable);
        },
        _ => {},
    }
    if r is Ok {
        lemma_args(r->Ok_0.args@);
    }
}

/// A scan along given points asks for its detectors, what moves and what reads its motor, and the
/// points in order. A relative one is moved by what locates the motor. A relative scan between two
/// positions asks for them after where the motor was found to be, or zero where it was not found.
pub proof fn law_list_and_relative_scans(call: BpCall, r: Result<PlanRequest, String>)
    requires
        call_ensures(bp_plan, (call,), r),
    ensures
        match call {
            BpCall::ListScan { dets, motor, points } => {
                &&& r is Ok <==> motor.movable is Some && motor.readable is Some && all_readable(
                    dets@,
                )
                &&& r matches Ok(q) ==> {
                    &&& q.function == PlanFn::ListScan
                    &&& q.args@.len() == 4
                    &&& reads_devices(q.args@[0], dets@)
                    &&& q.args@[1] == PlanArg::Object(motor.movable->0)
                    &&& q.args@[2] == PlanArg::Object(motor.readable->0)
                    &&& q.args@[3] matches PlanArg::Numbers(v) && v@ == points@
                }
            },
            BpCall::RelListScan { dets, motor, points } => {
                &&& r is Ok <==> motor.locatable is Some && motor.readable is Some && all_readable(
                    dets@,
                )
                &&& r matches Ok(q) ==> {
                    &&& q.function == PlanFn::RelListScan
                    &&& q.args@.len() == 4
                    &&& reads_devices(q.args@[0], dets@)
                    &&& q.args@[1] == PlanArg::Object(motor.locatable->0)
                    &&& q.args@[2] == PlanArg::Object(motor.readable->0)
                    &&& q.args@[3] matches PlanArg::Numbers(v) && v@ == points@
                }
            },
            BpCall::RelScan { dets, motor, found, start, stop, num } => {
                &&& r is Ok <==> motor.movable is Some && motor.readable is Some
                    && motor.locatable is Some && all_readable(dets@)
                &&& r matches Ok(q) ==> {
                    &&& q.function == PlanFn::RelScan
                    &&& q.args@.len() == 7
                    &&& reads_devices(q.args@[0], dets@)
                    &&& q.args@[1] == PlanArg::Object(motor.movable->0)
                    &&& q.args@[2] == PlanArg::Object(motor.readable->0)
                    &&& q.args@[3] == PlanArg::Number(
                        match found {
                            Ok(l) => l.readback,
                            Err(_) => Double { bits: 0 },
                        },
                    )
                    &&& q.args@[4] == PlanArg::Number(start)
                    &&& q.args@[5] == PlanArg::Number(stop)
                    &&& q.args@[6] == PlanArg::Count(num)
                }
            },
            _ => true,
        },
{
    match call {
        BpCall::ListScan { dets, motor, points } => {
            law_devices_give_their_objects(dets@, Role::Readable);
        },
        BpCall::RelListScan { dets, motor, points } => {
            law_devices_give_their_objects(dets@, Role::Readable);
        },
        BpCall::RelScan { dets, motor, found, start, stop, num } => {
            law_devices_give_their_objects(dets@, Role::Readable);
        },
        _ => {},
    }
    if r is Ok {
        lemma_args(r->Ok_0.args@);
    }
}

/// A grid scan asks for its detectors, then for the outer axis and then for the inner one: of each
/// what moves it, what reads it, where it starts, where it stops, and its number of points. A
/// relative one is moved by what locates the motors.
pub proof fn law_grid_scan_goes_along_both_axes(
    relative: bool,
    dets: Vec<LuaDevice>,
    outer: GridAxis,
    inner: GridAxis,
    r: Result<PlanRequest, String>,
)
    requires
        call_ensures(bp_plan, (BpCall::GridScan { relative, dets, outer, inner },), r),
    ensures
        ({
            let m1 = if relative {
                outer.motor.locatable
            } else {
                outer.motor.movable
            };
            let m2 = if relative {
                inner.motor.locatable
            } else {
                inner.motor.movable
            };
            &&& r is Ok <==> all_readable(dets@) && m1 is Some && m2 is Some
                && outer.motor.readable is Some && inner.motor.readable is Some
            &&& r matches Ok(q) ==> {
                &&& q.function == if relative {
                    PlanFn::RelGridScan
                } else {
                    PlanFn::GridScan
                }
                &&& q.args@.len() == 11
                &&& reads_devices(q.args@[0], dets@)
                &&& q.args@[1] == PlanArg::Object(m1->0)
                &&& q.args@[2] == PlanArg::Object(outer.motor.readable->0)
                &&& q.args@[3] == PlanArg::Number(outer.start)
                &&& q.args@[4] == PlanArg::Number(outer.stop)
                &&& q.args@[5] == PlanArg::Count(outer.num)
                &&& q.args@[6] == PlanArg::Object(m2->0)
                &&& q.args@[7] == PlanArg::Object(inner.motor.readable->0)
                &&& q.args@[8] == PlanArg::Number(inner.start)
                &&& q.args@[9] == PlanArg::Number(inner.stop)
                &&& q.args@[10] == PlanArg::Count(inner.num)
            }
        }),
{
    law_devices_give_their_objects(dets@, Role::Readable);
    if r is Ok {
        lemma_args(r->Ok_0.args@);
    }
}

/// A scan along several axes asks for its detectors and its axes, each with its motor's two objects
/// and its own numbers, and for its number of points or the points.
pub proof fn law_scans_go_along_all_axes(call: BpCall, r: Result<PlanRequest, String>)
    requires
        call_ensures(bp_plan, (call,), r),
    ensures
        match call {
            BpCall::ListGridScan { dets, axes } => {
                &&& r is Ok <==> all_readable(dets@) && all_scannable(axes@)
                &&& r matches Ok(q) ==> {
                    &&& q.function == PlanFn::ListGridScan
                    &&& q.args@.len() == 2
                    &&& reads_devices(q.args@[0], dets@)
                    &&& goes_along(q.args@[1], axes@)
                }
            },
            BpCall::InnerProductScan { dets, num, axes } => {
                &&& r is Ok <==> all_readable(dets@) && all_scannable(axes@)
                &&& r matches Ok(q) ==> {
                    &&& q.function == PlanFn::InnerProductScan
                    &&& q.args@.len() == 3
                    &&& reads_devices(q.args@[0], dets@)
                    &&& q.args@[1] == PlanArg::Count(num)
                    &&& goes_along(q.args@[2], axes@)
                }
            },
            BpCall::ScanNd { dets, axes, points } => {
                &&& r is Ok <==> all_readable(dets@) && all_scannable(axes@)
                &&& r matches Ok(q) ==> {
                    &&& q.function == PlanFn::ScanNd
                    &&& q.args@.len() == 3
                    &&& reads_devices(q.args@[0], dets@)
                    &&& goes_along(q.args@[1], axes@)
                    &&& q.args@[2] matches PlanArg::Points(v) && v@ == points@
                }
            },
            _ => true,
        },
{
    match call {
        BpCall::ListGridScan { dets, axes } => {
            law_devices_give_their_objects(dets@, Role::Readable);
            law_tables_give_their_axes(axes@);
        },
        BpCall::InnerProductScan { dets, num, axes } => {
            law_devices_give_their_objects(dets@, Role::Readable);
            law_tables_give_their_axes(axes@);
        },
        BpCall::ScanNd { dets, axes, points } => {
            law_devices_give_their_objects(dets@, Role::Readable);
            law_tables_give_their_axes(axes@);
        },
        _ => {},
    }
    if r is Ok {
        let q = r->Ok_0;
        lemma_args(q.args@);
        match call {
            BpCall::ListGridScan { dets, axes } => lemma_axes(q.args@[1], axes@),
            BpCall::InnerProductScan { dets, num, axes } => lemma_axes(q.args@[2], axes@),
            BpCall::ScanNd { dets, axes, points } => lemma_axes(q.args@[1], axes@),
            _ => {},
        }
    }
}

proof fn lemma_axes(a: PlanArg, rows: Seq<AxisTable>)
    requires
        axes_of(rows) matches Ok(v) && arg_view(a) == ArgView::Axes(v),
    ensures
        goes_along(a, rows),
{
    law_tables_give_their_axes(rows);
    let v = a->Axes_0@;
    let views = axes_of(rows)->Ok_0;
    assert forall|i: int| 0 <= i < rows.len() implies {
        &&& (#[trigger] v[i]).movable == rows[i].motor.movable->0
        &&& v[i].readable == rows[i].motor.readable->0
        &&& v[i].at@ == rows[i].at@
    } by {
        assert(views[i].at == v[i].at@);
    }
}

/// A spiral asks for its detectors, for what moves and what reads the horizontal motor and then the
/// vertical one, for the centre and the ranges as they are given, and then for what fixes its form.
pub proof fn law_spiral_keeps_its_form(
    dets: Vec<LuaDevice>,
    x: LuaDevice,
    y: LuaDevice,
    form: SpiralForm,
    r: Result<PlanRequest, String>,
)
    requires
        call_ensures(bp_plan, (BpCall::Spiral { dets, x, y, form },), r),
    ensures
        r is Ok <==> all_readable(dets@) && x.movable is Some && x.readable is Some
            && y.movable is Some && y.readable is Some,
        r matches Ok(q) ==> {
            let frame = match form {
                SpiralForm::Even { frame, .. } => frame,
                SpiralForm::Square { frame, .. } => frame,
                SpiralForm::Fermat { frame, .. } => frame,
            };
            &&& q.args@.len() == 11
            &&& reads_devices(q.args@[0], dets@)
            &&& q.args@[1] == PlanArg::Object(x.movable->0)
            &&& q.args@[2] == PlanArg::Object(x.readable->0)
            &&& q.args@[3] == PlanArg::Object(y.movable->0)
            &&& q.args@[4] == PlanArg::Object(y.readable->0)
            &&& q.args@[5] == PlanArg::Number(frame[0])
            &&& q.args@[6] == PlanArg::Number(frame[1])
            &&& q.args@[7] == PlanArg::Number(frame[2])
            &&& q.args@[8] == PlanArg::Number(frame[3])
            &&& match form {
                SpiralForm::Even { dr, nth, .. } => q.function == PlanFn::Spiral && q.args@[9]
                    == PlanArg::Number(dr) && q.args@[10] == PlanArg::Count(nth),
                SpiralForm::Square { x_num, y_num, .. } => q.function == PlanFn::SpiralSquare
                    && q.args@[9] == PlanArg::Count(x_num) && q.args@[10] == PlanArg::Count(y_num),
                SpiralForm::Fermat { dr, factor, .. } => q.function == PlanFn::SpiralFermat
                    && q.args@[9] == PlanArg::Number(dr) && q.args@[10] == PlanArg::Number(factor),
            }
        },
{
    law_devices_give_their_objects(dets@, Role::Readable);
    if r is Ok {
        lemma_args(r->Ok_0.args@);
    }
}

/// A ramp asks for the plan that it is given, its detectors, the period and the number of samples;
/// only a finished plan can be made part of it.
pub proof fn law_ramp_takes_the_plan(
    go: Option<LuaPlanKind>,
    dets: Seq<LuaDevice>,
    period: Span,
    samples: u64,
    r: Result<PlanRequest, String>,
)
    requires
        wish(r) == ramp_wish(go, dets, period, samples),
    ensures
        r is Ok <==> all_readable(dets) && (go matches Some(LuaPlanKind::Prebuilt(_))),
        r matches Ok(q) ==> {
            &&& q.function == PlanFn::RampPlan
            &&& q.args@.len() == 4
            &&& go == Some(LuaPlanKind::Prebuilt(q.args@[0]->Plan_0))
            &&& q.args@[0] is Plan
            &&& reads_devices(q.args@[1], dets)
            &&& q.args@[2] == PlanArg::Time(period)
            &&& q.args@[3] == PlanArg::Count(samples)
        },
{
    law_devices_give_their_objects(dets, Role::Readable);
    if r is Ok {
        lemma_args(r->Ok_0.args@);
    }
}

} // verus!
