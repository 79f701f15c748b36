//! What the operations of the engine do, stated of the operations themselves.

use std::sync::Arc;

use vstd::prelude::*;
use vstd::string::*;

use super::call::has;
use super::control::SignalAction;
use super::dispatch::handled;
use super::fan_out::{fanned, FanNext, FanOut};
use super::lifecycle::{attends, loop_finished, Cleanup};
use super::messages::names_all;
use super::replay::{gate_entered, gate_left, interruption_recorded, Fetch, PauseActions};
use super::replies::{
    collecting, factories_told, factory_step, input_taken, joined, located, member_step,
    monitor_ticked, monitoring, read_done, rows_collected, seeding, staging_ended,
    subscription_ended, suspender_taken, unstaging_ended, wait_timed_out, FactoryNext, FactoryWait,
    GroupNext, GroupWait, Row, WaitEnd,
};
use super::run_loop::{answered, asked, Ask, RunLoop};
use super::{
    Call, Control, EngineRunState, EngineView, Hooks, MonitorTask, MsgResult, Next, Now, RunEngine,
    RunOptions, RunResult, Step,
};
use crate::documents::{DataKey, Document, Event};
use crate::error::{CirrusError, Span};
use crate::msg::{Msg, ObjRef};
use crate::reading::ReadingValue;
use crate::status::StatusError;
use crate::strmap::StrMap;
use crate::value::{Double, Json};

verus! {

/// A key of the persistent metadata holds what it was set to last, and nothing once it was
/// removed; other keys keep what they hold. A replacement holds exactly what was given.
pub proof fn law_metadata_hold_what_was_set(
    re: &mut RunEngine,
    de: &mut RunEngine,
    fe: &mut RunEngine,
    key: String,
    value: Json,
    gone: &str,
    md: StrMap<Json>,
    other: Seq<char>,
)
    requires
        call_ensures(RunEngine::md_set, (re, key, value), ()),
        call_ensures(RunEngine::md_remove, (de, gone), ()),
        call_ensures(RunEngine::md_replace, (fe, md), ()),
    ensures
        has(final(re)@.md, key@, value.deep_view()),
        other != key@ ==> (final(re)@.md.dom().contains(other) <==> old(re)@.md.dom().contains(
            other,
        )) && final(re)@.md[other] == old(re)@.md[other],
        !final(de)@.md.dom().contains(gone@),
        other != gone@ ==> (final(de)@.md.dom().contains(other) <==> old(de)@.md.dom().contains(
            other,
        )) && final(de)@.md[other] == old(de)@.md[other],
        final(fe)@.md == md@,
        final(re)@ == (EngineView { md: final(re)@.md, ..old(re)@ }),
        final(de)@ == (EngineView { md: final(de)@.md, ..old(de)@ }),
        final(fe)@ == (EngineView { md: final(fe)@.md, ..old(fe)@ }),
{
}

/// The metadata that are handed out are the persistent ones.
pub proof fn law_metadata_are_handed_out(re: &RunEngine, md: StrMap<Json>, h: Hooks, u: Option<String>)
    requires
        call_ensures(RunEngine::md, (re,), md),
        call_ensures(RunEngine::hooks, (re,), h),
        call_ensures(RunEngine::current_run_uid, (re,), u),
    ensures
        md@ == re@.md,
        h == re@.hooks,
        u is Some <==> re@.bundler is Some,
        u matches Some(u) ==> u@ == re@.bundler->0.bundle.start_uid,
{
}

/// Whether nothing but the hooks changed.
pub open spec fn only_hooks(before: EngineView, after: EngineView) -> bool {
    after == EngineView { hooks: after.hooks, ..before }
}

/// Each hook of the metadata is set by its own setter, and the others stay.
pub proof fn law_metadata_hooks_are_set(
    a: &mut RunEngine,
    b: &mut RunEngine,
    c: &mut RunEngine,
    h: Option<u64>,
)
    requires
        call_ensures(RunEngine::set_md_validator, (a, h), ()),
        call_ensures(RunEngine::set_md_normalizer, (b, h), ()),
        call_ensures(RunEngine::set_scan_id_source, (c, h), ()),
    ensures
        final(a)@.hooks.md_validator == h,
        final(a)@.hooks.md_normalizer == old(a)@.hooks.md_normalizer,
        final(a)@.hooks.scan_id_source == old(a)@.hooks.scan_id_source,
        final(b)@.hooks.md_normalizer == h,
        final(b)@.hooks.md_validator == old(b)@.hooks.md_validator,
        final(b)@.hooks.scan_id_source == old(b)@.hooks.scan_id_source,
        final(c)@.hooks.scan_id_source == h,
        final(c)@.hooks.md_validator == old(c)@.hooks.md_validator,
        final(c)@.hooks.md_normalizer == old(c)@.hooks.md_normalizer,
        final(a)@.hooks.input_handler == old(a)@.hooks.input_handler,
        final(b)@.hooks.input_handler == old(b)@.hooks.input_handler,
        final(c)@.hooks.input_handler == old(c)@.hooks.input_handler,
        only_hooks(old(a)@, final(a)@) && only_hooks(old(b)@, final(b)@) && only_hooks(
            old(c)@,
            final(c)@,
        ),
{
}

/// Each hook around a run call is set by its own setter, and the others stay.
pub proof fn law_call_hooks_are_set(
    a: &mut RunEngine,
    b: &mut RunEngine,
    c: &mut RunEngine,
    d: &mut RunEngine,
    e: &mut RunEngine,
    h: Option<u64>,
    hook: u64,
    t: Option<Span>,
)
    requires
        call_ensures(RunEngine::set_before_plan, (a, h), ()),
        call_ensures(RunEngine::set_after_plan, (b, h), ()),
        call_ensures(RunEngine::set_input_handler, (c, h), ()),
        call_ensures(RunEngine::set_checkpoint_hook, (d, hook), ()),
        call_ensures(RunEngine::set_loop_timeout, (e, t), ()),
    ensures
        final(a)@.hooks.before_plan == h,
        final(a)@.hooks.after_plan == old(a)@.hooks.after_plan,
        final(b)@.hooks.after_plan == h,
        final(b)@.hooks.before_plan == old(b)@.hooks.before_plan,
        final(c)@.hooks.input_handler == h,
        final(c)@.hooks.checkpoint_hook == old(c)@.hooks.checkpoint_hook,
        final(d)@.hooks.checkpoint_hook == Some(hook),
        final(d)@.hooks.input_handler == old(d)@.hooks.input_handler,
        final(e)@.hooks.loop_timeout == t,
        only_hooks(old(a)@, final(a)@) && only_hooks(old(b)@, final(b)@) && only_hooks(
            old(c)@,
            final(c)@,
        ) && only_hooks(old(d)@, final(d)@) && only_hooks(old(e)@, final(e)@),
{
}

/// A subscriber is called after those that were subscribed before it, under an id of its own; the
/// callbacks are those of the subscribers, in order.
pub proof fn law_subscribers_are_called_in_order(
    re: &mut RunEngine,
    callback: u64,
    id: u64,
    handles: Vec<u64>,
    i: int,
)
    requires
        call_ensures(RunEngine::subscribe, (re, callback), id),
        call_ensures(RunEngine::callbacks, (final(re),), handles),
        0 <= i < old(re)@.subscribers.len(),
    ensures
        id == old(re)@.control.sub_counter + 1,
        final(re)@.control.sub_counter == id,
        final(re)@.subscribers.len() == old(re)@.subscribers.len() + 1,
        final(re)@.subscribers.last().0 == id,
        final(re)@.subscribers[i] == old(re)@.subscribers[i],
        handles@.len() == old(re)@.subscribers.len() + 1,
        handles@.last() == callback,
        handles@[i] == old(re)@.subscribers[i].1,
{
}

/// A subscription that ends is gone, and every other one stays.
pub proof fn law_unsubscribed_is_gone(re: &mut RunEngine, id: u64, i: int)
    requires
        call_ensures(RunEngine::unsubscribe, (re, id), ()),
    ensures
        0 <= i < final(re)@.subscribers.len() ==> final(re)@.subscribers[i].0 != id
            && old(re)@.subscribers.contains(final(re)@.subscribers[i]),
        0 <= i < old(re)@.subscribers.len() && old(re)@.subscribers[i].0 != id
            ==> final(re)@.subscribers.contains(old(re)@.subscribers[i]),
        final(re)@ == (EngineView { subscribers: final(re)@.subscribers, ..old(re)@ }),
{
    let subs = old(re)@.subscribers;
    super::messages::lemma_filtered(subs, super::control::has_other_id(id), subs.len() as int);
    assert(subs.take(subs.len() as int) =~= subs);
}

/// A command is handled by the handler that was registered for it last, and by none once it was
/// taken out; other commands keep their handlers.
pub proof fn law_commands_are_registered(
    re: &mut RunEngine,
    de: &mut RunEngine,
    name: String,
    handler: u64,
    gone: &str,
    other: Seq<char>,
)
    requires
        call_ensures(RunEngine::register_command, (re, name, handler), ()),
        call_ensures(RunEngine::unregister_command, (de, gone), ()),
    ensures
        final(re)@.commands.dom().contains(name@) && final(re)@.commands[name@] == handler,
        other != name@ ==> (final(re)@.commands.dom().contains(other)
            <==> old(re)@.commands.dom().contains(other)) && final(re)@.commands[other]
            == old(re)@.commands[other],
        !final(de)@.commands.dom().contains(gone@),
        other != gone@ ==> (final(de)@.commands.dom().contains(other)
            <==> old(de)@.commands.dom().contains(other)) && final(de)@.commands[other]
            == old(de)@.commands[other],
        final(re)@ == (EngineView { commands: final(re)@.commands, ..old(re)@ }),
        final(de)@ == (EngineView { commands: final(de)@.commands, ..old(de)@ }),
{
}

/// A device is paused along with the engine from its registration until it is taken out.
pub proof fn law_pausables_are_registered(
    re: &mut RunEngine,
    de: &mut RunEngine,
    obj: ObjRef,
    gone: &str,
    other: Seq<char>,
)
    requires
        call_ensures(RunEngine::register_pausable, (re, obj), ()),
        call_ensures(RunEngine::unregister_pausable, (de, gone), ()),
    ensures
        final(re)@.pausables.dom().contains(obj.name@) && final(re)@.pausables[obj.name@]
            == obj.deep_view(),
        other != obj.name@ ==> (final(re)@.pausables.dom().contains(other)
            <==> old(re)@.pausables.dom().contains(other)) && final(re)@.pausables[other]
            == old(re)@.pausables[other],
        !final(de)@.pausables.dom().contains(gone@),
        other != gone@ ==> (final(de)@.pausables.dom().contains(other)
            <==> old(de)@.pausables.dom().contains(other)),
        final(re)@ == (EngineView { pausables: final(re)@.pausables, ..old(re)@ }),
        final(de)@ == (EngineView { pausables: final(de)@.pausables, ..old(de)@ }),
{
}

/// Preprocessors are kept in the order in which they were added, until all are taken out.
pub proof fn law_preprocessors_keep_their_order(
    re: &mut RunEngine,
    de: &mut RunEngine,
    p: u64,
    listed: &Vec<u64>,
)
    requires
        call_ensures(RunEngine::add_preprocessor, (re, p), ()),
        call_ensures(RunEngine::preprocessors, (final(re),), listed),
        call_ensures(RunEngine::clear_preprocessors, (de,), ()),
    ensures
        listed@.len() == old(re)@.preprocessors.len() + 1,
        listed@.last() == p,
        listed@.drop_last() == old(re)@.preprocessors,
        final(de)@.preprocessors.len() == 0,
        final(re)@ == (EngineView { preprocessors: listed@, ..old(re)@ }),
        final(de)@ == (EngineView { preprocessors: seq![], ..old(de)@ }),
{
    assert(listed@.drop_last() =~= old(re)@.preprocessors);
}

/// A request to pause takes effect at once, unless it is to wait for the next checkpoint; a
/// request to suspend takes effect at once; a request to resume ends a pause. None of them ends
/// the run or touches anything but that flag.
pub proof fn law_pause_and_resume(
    a: &mut RunEngine,
    b: &mut RunEngine,
    c: &mut RunEngine,
    d: &mut RunEngine,
    e: &mut RunEngine,
    defer: bool,
    why: Option<String>,
    label: String,
)
    requires
        call_ensures(RunEngine::pause, (a, defer), ()),
        call_ensures(RunEngine::request_pause, (b, defer), ()),
        call_ensures(RunEngine::request_suspend, (c,), ()),
        call_ensures(RunEngine::suspend_until_with, (d, why), label),
        call_ensures(RunEngine::resume, (e,), ()),
    ensures
        final(a)@.control.is_paused == (old(a)@.control.is_paused || !defer),
        final(a)@.control.deferred_pause == (old(a)@.control.deferred_pause || defer),
        final(b)@.control.is_paused == (old(b)@.control.is_paused || !defer),
        final(b)@.control.deferred_pause == (old(b)@.control.deferred_pause || defer),
        final(c)@.control.is_paused,
        final(d)@.control.is_paused,
        final(c)@.control.deferred_pause == old(c)@.control.deferred_pause,
        final(d)@.control.deferred_pause == old(d)@.control.deferred_pause,
        why matches Some(w) ==> label@ == w@,
        !final(e)@.control.is_paused,
        final(e)@.control.deferred_pause == old(e)@.control.deferred_pause,
        final(a)@.control.is_aborting == old(a)@.control.is_aborting,
        final(b)@.control.is_aborting == old(b)@.control.is_aborting,
        final(c)@.control.is_aborting == old(c)@.control.is_aborting,
        final(d)@.control.is_aborting == old(d)@.control.is_aborting,
        final(e)@.control.is_aborting == old(e)@.control.is_aborting,
        final(e)@.control.cancelled == old(e)@.control.cancelled,
        final(a)@ == (EngineView { control: final(a)@.control, ..old(a)@ }),
        final(b)@ == (EngineView { control: final(b)@.control, ..old(b)@ }),
        final(c)@ == (EngineView { control: final(c)@.control, ..old(c)@ }),
        final(d)@ == (EngineView { control: final(d)@.control, ..old(d)@ }),
        final(e)@ == (EngineView { control: final(e)@.control, ..old(e)@ }),
{
}

/// An abort, a halt and a stop end the run: each ends a pause and cancels what is under way, a halt
/// alone counts as a halt and a stop alone as a stop, and what was requested before stays
/// requested.
pub proof fn law_abort_halt_and_stop(a: &mut RunEngine, h: &mut RunEngine, s: &mut RunEngine)
    requires
        call_ensures(RunEngine::abort, (a,), ()),
        call_ensures(RunEngine::halt, (h,), ()),
        call_ensures(RunEngine::stop, (s,), ()),
    ensures
        final(a)@.control.is_aborting && !final(a)@.control.is_paused
            && final(a)@.control.cancelled,
        final(h)@.control.is_aborting && !final(h)@.control.is_paused
            && final(h)@.control.cancelled,
        final(s)@.control.is_aborting && !final(s)@.control.is_paused
            && final(s)@.control.cancelled,
        final(a)@.control.is_halting == old(a)@.control.is_halting,
        final(a)@.control.is_stopping == old(a)@.control.is_stopping,
        final(h)@.control.is_halting,
        final(h)@.control.is_stopping == old(h)@.control.is_stopping,
        final(s)@.control.is_stopping,
        final(s)@.control.is_halting == old(s)@.control.is_halting,
        final(a)@ == (EngineView { control: final(a)@.control, ..old(a)@ }),
        final(h)@ == (EngineView { control: final(h)@.control, ..old(h)@ }),
        final(s)@ == (EngineView { control: final(s)@.control, ..old(s)@ }),
{
}

/// The state that is told: idle outside of a run call; inside of one a halt comes before an abort,
/// an abort before a pause.
pub proof fn law_state_is_told(re: &RunEngine, s: EngineRunState, p: bool, c: bool, r: bool, i: bool)
    requires
        call_ensures(RunEngine::state, (re,), s),
        call_ensures(RunEngine::is_paused, (re,), p),
        call_ensures(RunEngine::is_cancelled, (re,), c),
        call_ensures(RunEngine::record_interruptions_enabled, (re,), r),
        call_ensures(RunEngine::is_interrupted, (re,), i),
    ensures
        s is Idle <==> !re@.control.is_running,
        s is Halting <==> re@.control.is_running && re@.control.is_halting,
        s is Aborting <==> re@.control.is_running && !re@.control.is_halting
            && re@.control.is_aborting,
        s is Paused <==> re@.control.is_running && !re@.control.is_halting
            && !re@.control.is_aborting && re@.control.is_paused,
        p == re@.control.is_paused,
        c == re@.control.cancelled,
        r == re@.control.record_interruptions,
        i == (re@.control.is_halting || re@.control.is_stopping || re@.control.is_aborting),
{
}

/// The first interrupt signal of a run call pauses, the second aborts and every further one halts;
/// the watcher is started once.
pub proof fn law_signals_escalate(
    re: &mut RunEngine,
    action: SignalAction,
    we: &mut RunEngine,
    start: bool,
)
    requires
        call_ensures(RunEngine::on_signal, (re,), action),
        call_ensures(RunEngine::install_signal_handler, (we,), start),
    ensures
        action is Pause <==> old(re)@.control.sigint_count == 0,
        action is Abort <==> old(re)@.control.sigint_count == 1,
        action is Halt <==> old(re)@.control.sigint_count >= 2,
        old(re)@.control.sigint_count < u8::MAX ==> final(re)@.control.sigint_count
            == old(re)@.control.sigint_count + 1,
        action is Pause ==> final(re)@.control.is_paused && final(re)@.control.is_aborting
            == old(re)@.control.is_aborting,
        action is Abort ==> final(re)@.control.is_aborting && !final(re)@.control.is_paused
            && final(re)@.control.is_halting == old(re)@.control.is_halting,
        action is Halt ==> final(re)@.control.is_halting && final(re)@.control.is_aborting,
        start <==> !old(we)@.control.signal_installed,
        final(we)@.control.signal_installed,
{
}

/// Whether interruptions are recorded is what was set last; suspender ids are handed out one after
/// the other; the result of a message is handed out once.
pub proof fn law_small_requests(
    a: &mut RunEngine,
    on: bool,
    b: &mut RunEngine,
    id: u64,
    c: &mut RunEngine,
    r: MsgResult,
)
    requires
        call_ensures(RunEngine::set_record_interruptions, (a, on), ()),
        call_ensures(RunEngine::next_suspender_id, (b,), id),
        old(b)@.control.suspender_count < u64::MAX,
        call_ensures(RunEngine::take_msg_result, (c,), r),
    ensures
        final(a)@.control.record_interruptions == on,
        final(a)@ == (EngineView {
            control: Control { record_interruptions: on, ..old(a)@.control },
            ..old(a)@
        }),
        id == old(b)@.control.suspender_count,
        final(b)@.control.suspender_count == id + 1,
        r@ == old(c)@.last_msg_result,
        final(c)@.last_msg_result is Nothing,
        final(c)@ == (EngineView { last_msg_result: final(c)@.last_msg_result, ..old(c)@ }),
{
}

/// The engine handles messages, takes replies and ends its loop as it is said to.
pub proof fn law_engine_handles_messages(
    re: &mut RunEngine,
    msg: Msg,
    now: Now,
    step: Step,
    yes: bool,
)
    requires
        call_ensures(RunEngine::can_handle, (old(re), &msg), yes),
        yes,
        call_ensures(RunEngine::handle, (re, msg, now), step),
    ensures
        handled(old(re)@, final(re)@, msg, step, now),
{
}

/// What a reading of a device came to: an error of either part is passed on and changes nothing.
pub proof fn law_failed_reading_is_passed_on(
    re: &mut RunEngine,
    obj: &ObjRef,
    readings: Result<StrMap<ReadingValue>, CirrusError>,
    keys: Result<StrMap<DataKey>, CirrusError>,
    hints: Option<Vec<String>>,
    step: Step,
)
    requires
        call_ensures(RunEngine::device_read, (re, obj, readings, keys, hints), step),
    ensures
        match (readings, keys) {
            (Err(e), _) => step.next == Next::Failed(e) && step.emit@.len() == 0 && final(re)@
                == old(re)@,
            (Ok(_), Err(e)) => step.next == Next::Failed(e) && step.emit@.len() == 0 && final(re)@
                == old(re)@,
            (Ok(r), Ok(k)) => read_done(old(re)@, final(re)@, step, *obj, r, k, hints),
        },
{
}

/// What the replies of devices come to.
pub proof fn law_device_replies(
    a: &mut RunEngine,
    place: Result<(Double, Double), CirrusError>,
    located_step: Step,
    b: &mut RunEngine,
    status: u64,
    group: Option<String>,
    joined_step: Step,
    c: &mut RunEngine,
    d: &mut RunEngine,
    obj: ObjRef,
    r: Result<(), CirrusError>,
    staged: Step,
    unstaged: Step,
    e: &mut RunEngine,
    line: Result<String, CirrusError>,
    taken: Step,
    f: &mut RunEngine,
    id: u64,
    watched: bool,
    installed: Step,
)
    requires
        call_ensures(RunEngine::device_located, (a, place), located_step),
        call_ensures(RunEngine::status_issued, (b, status, group), joined_step),
        call_ensures(RunEngine::device_staged, (c, obj, r), staged),
        call_ensures(RunEngine::device_unstaged, (d, &obj, r), unstaged),
        call_ensures(RunEngine::input_given, (e, line), taken),
        call_ensures(RunEngine::suspender_installed, (f, id, watched), installed),
    ensures
        located(old(a)@, final(a)@, place, located_step),
        joined(old(b)@, final(b)@, status, group, joined_step),
        staging_ended(old(c)@, final(c)@, obj, r, staged),
        unstaging_ended(old(d)@, final(d)@, obj, r, unstaged),
        input_taken(old(e)@, final(e)@, line, taken),
        suspender_taken(old(f)@, final(f)@, id, watched, installed),
{
}

/// What a call without a value came to is passed on: success as success, and an error as it is. A
/// sleep that was cut short is a cancellation.
pub proof fn law_ends_are_passed_on(
    re: &RunEngine,
    r: Result<(), CirrusError>,
    s: Result<(), StatusError>,
    cancelled: bool,
    strict: bool,
    limit: Span,
    end: WaitEnd,
    call: Step,
    group: Step,
    status: Step,
    slept: Step,
    late: Step,
    waited: Step,
)
    requires
        call_ensures(RunEngine::call_ended, (re, r), call),
        call_ensures(RunEngine::group_ended, (re, r), group),
        call_ensures(RunEngine::status_ended, (re, s), status),
        call_ensures(RunEngine::slept, (re, cancelled), slept),
        call_ensures(RunEngine::group_timed_out, (re, strict, limit), late),
        call_ensures(RunEngine::factories_awaited, (re, end), waited),
    ensures
        call.emit@.len() == 0 && group.emit@.len() == 0 && status.emit@.len() == 0
            && slept.emit@.len() == 0,
        match r {
            Ok(()) => call.next == Next::Done(None) && group.next == Next::Done(None),
            Err(e) => call.next == Next::Failed(e) && group.next == Next::Failed(e),
        },
        match s {
            Ok(()) => status.next == Next::Done(None),
            Err(StatusError::Failed(m)) => status.next == Next::Failed(CirrusError::Backend(m)),
            Err(StatusError::Cancelled) => status.next == Next::Failed(CirrusError::Cancelled),
            Err(StatusError::Timeout) => status.next matches Next::Failed(CirrusError::Timeout(_)),
        },
        cancelled ==> slept.next == Next::Failed(CirrusError::Cancelled),
        !cancelled ==> slept.next == Next::Done(None),
        wait_timed_out(strict, limit, late),
        factories_told(end, waited),
{
}

/// What collecting and monitoring come to.
pub proof fn law_collecting_and_monitoring(
    a: &mut RunEngine,
    obj: ObjRef,
    name: Option<String>,
    descs: Result<StrMap<StrMap<DataKey>>, CirrusError>,
    now: Now,
    described: Step,
    b: &mut RunEngine,
    rows: Result<Vec<Row>, CirrusError>,
    collected: Step,
    c: &mut RunEngine,
    stream: String,
    keys: Result<StrMap<DataKey>, CirrusError>,
    monitored: Step,
    d: &mut RunEngine,
    uid: String,
    readings: Result<StrMap<ReadingValue>, CirrusError>,
    read: Step,
    e: &mut RunEngine,
    r: Result<(), CirrusError>,
    out: (Step, bool),
    f: &mut RunEngine,
    task: &MonitorTask,
    value: Json,
    stamp: Double,
    doc: Option<Event>,
)
    requires
        call_ensures(RunEngine::collect_described, (a, obj, name, descs, now), described),
        call_ensures(RunEngine::events_collected, (b, name, rows, now), collected),
        rows is Ok ==> old(b)@.room(rows->Ok_0@.len()),
        call_ensures(RunEngine::monitor_described, (c, stream, obj, keys, now), monitored),
        call_ensures(RunEngine::monitor_read, (d, stream, obj, uid, readings, now), read),
        old(d)@.room(1),
        call_ensures(RunEngine::monitor_subscribed, (e, stream, &obj, uid, r), out),
        call_ensures(RunEngine::monitor_event, (f, task, value, stamp, now), doc),
        old(f)@.room(1),
    ensures
        collecting(old(a)@, final(a)@, obj, name, descs, described, now.time),
        match rows {
            Ok(v) => rows_collected(old(b)@, final(b)@, v@, name, collected, now.time),
            Err(e) => collected.next == Next::Failed(e) && collected.emit@.len() == 0 && final(b)@
                == old(b)@,
        },
        monitoring(old(c)@, final(c)@, stream, obj, keys, monitored, now.time),
        seeding(old(d)@, final(d)@, stream, obj, uid, readings, read, now.time),
        subscription_ended(old(e)@, final(e)@, stream, obj, uid, r, out),
        monitor_ticked(
            old(f)@,
            final(f)@,
            task.deep_view(),
            value.deep_view(),
            stamp,
            now.time,
            doc,
        ),
{
}

/// The engine enters and leaves the pause gate, cleans up and ends its loop as it is said to, and
/// records an interruption by a pause or a resume under that word.
pub proof fn law_engine_pauses_and_ends(
    a: &mut RunEngine,
    actions: PauseActions,
    b: &mut RunEngine,
    pausables: Vec<ObjRef>,
    c: &mut RunEngine,
    d: &mut RunEngine,
    now: Now,
    paused: Option<Arc<Document>>,
    resumed: Option<Arc<Document>>,
    e: &mut RunEngine,
    cleanup: Cleanup,
    f: &mut RunEngine,
    uid: Option<String>,
    failure: Option<CirrusError>,
    r: (RunResult, Vec<Arc<Document>>),
)
    requires
        call_ensures(RunEngine::on_pause_enter, (a,), actions),
        call_ensures(RunEngine::on_resume, (b,), pausables),
        call_ensures(RunEngine::record_pause, (c, now), paused),
        call_ensures(RunEngine::record_resume, (d, now), resumed),
        old(c)@.room(1),
        old(d)@.room(1),
        call_ensures(RunEngine::start_cleanup, (e,), cleanup),
        call_ensures(RunEngine::finish_loop, (f, uid, failure, now), r),
    ensures
        gate_entered(old(a)@, final(a)@, actions),
        gate_left(old(b)@, final(b)@, pausables@),
        interruption_recorded(old(c)@, final(c)@, "pause"@, now.time, paused),
        interruption_recorded(old(d)@, final(d)@, "resume"@, now.time, resumed),
        attends(old(e)@, cleanup),
        loop_finished(old(f)@, final(f)@, uid, failure, now, r.0, r.1@),
{
}

/// After the cleanup nothing of the run call is left: no device on record, no monitor, no
/// suspender, and no subscription that was made for the call; the subscriptions that were not, the
/// metadata and the hooks stay.
pub proof fn law_cleanup_leaves_nothing_of_the_call(re: &mut RunEngine, c: Cleanup, i: int)
    requires
        call_ensures(RunEngine::start_cleanup, (re,), c),
    ensures
        final(re)@.staged.len() == 0,
        final(re)@.monitor_tasks.len() == 0,
        final(re)@.suspenders.len() == 0,
        final(re)@.temp_subscribers.len() == 0,
        final(re)@.movable_objs_touched.dom() =~= Set::empty(),
        final(re)@.flyable_objs_touched.dom() =~= Set::empty(),
        final(re)@.pausables.dom() =~= Set::empty(),
        final(re)@.retired.dom() =~= Set::empty(),
        0 <= i < final(re)@.subscribers.len() ==> !old(re)@.temp_subscribers.contains(
            final(re)@.subscribers[i].0,
        ) && old(re)@.subscribers.contains(final(re)@.subscribers[i]),
        0 <= i < old(re)@.subscribers.len() && !old(re)@.temp_subscribers.contains(
            old(re)@.subscribers[i].0,
        ) ==> final(re)@.subscribers.contains(old(re)@.subscribers[i]),
        final(re)@.md == old(re)@.md,
        final(re)@.hooks == old(re)@.hooks,
        final(re)@.commands == old(re)@.commands,
        final(re)@.bundler == old(re)@.bundler,
        !old(re)@.control.is_halting ==> c.staged@ == old(re)@.staged && names_all(
            c.movables@,
            old(re)@.movable_objs_touched,
        ) && names_all(c.flyables@, old(re)@.flyable_objs_touched),
        old(re)@.control.is_halting ==> c.staged@.len() == 0 && c.movables@.len() == 0
            && c.flyables@.len() == 0,
{
    super::messages::law_cleanup_attends_to_every_device(old(re)@, c);
    let subs = old(re)@.subscribers;
    let ids = old(re)@.temp_subscribers;
    super::messages::lemma_filtered(
        subs,
        |s: (u64, u64)| !ids.contains(s.0),
        subs.len() as int,
    );
    assert(subs.take(subs.len() as int) =~= subs);
}

/// Options of a run call: every subscriber that was given gets an id of its own, is called after
/// those there were, in the order given, and is one of the call from its beginning on; the metadata
/// that were given are those of the call. The beginning of a call clears what an earlier one
/// requested and changes nothing else.
pub proof fn law_options_reach_the_call(
    re: &mut RunEngine,
    opts: RunOptions,
    be: &mut RunEngine,
    i: int,
)
    requires
        call_ensures(RunEngine::stage_options, (re, opts), ()),
        old(re)@.control.sub_counter + opts.subs@.len() <= u64::MAX,
        call_ensures(RunEngine::begin_run, (be,), ()),
        old(be)@ == final(re)@,
        0 <= i < opts.subs@.len(),
    ensures
        final(re)@.per_call_md == opts.md@,
        final(re)@.subscribers.len() == old(re)@.subscribers.len() + opts.subs@.len(),
        final(re)@.subscribers.take(old(re)@.subscribers.len() as int) == old(re)@.subscribers,
        ({
            let s = final(re)@.subscribers[old(re)@.subscribers.len() + i];
            &&& s.0 == old(re)@.control.sub_counter + 1 + i
            &&& s.1 == opts.subs@[i]
            &&& final(be)@.temp_subscribers.contains(s.0)
        }),
        final(re)@.control.sub_counter == old(re)@.control.sub_counter + opts.subs@.len(),
        final(be)@.staged_temp_subs.len() == 0,
        final(be)@.subscribers == final(re)@.subscribers,
        final(be)@.per_call_md == opts.md@,
        final(be)@.control.is_running,
        !final(be)@.control.is_aborting && !final(be)@.control.is_halting
            && !final(be)@.control.is_stopping && !final(be)@.control.is_paused
            && !final(be)@.control.cancelled && final(be)@.control.sigint_count == 0,
        final(be)@.control.scan_id == old(be)@.control.scan_id,
        final(be)@.control.deferred_pause == old(be)@.control.deferred_pause,
        final(be)@.control.record_interruptions == old(be)@.control.record_interruptions,
        final(be)@.md == old(be)@.md,
        final(be)@.hooks == old(be)@.hooks,
        final(be)@.bundler == old(be)@.bundler,
{
    let n = old(re)@.subscribers.len() as int;
    assert(final(re)@.subscribers.take(n) =~= old(re)@.subscribers);
    let id = final(re)@.subscribers[n + i].0;
    assert(final(re)@.staged_temp_subs[i] == id);
    assert(final(be)@.temp_subscribers[old(be)@.temp_subscribers.len() + i] == id);
}

/// The end of a run call: the engine runs no more, the metadata of the call are gone, and nothing
/// is recorded or left to deliver again; everything else stays. A call that took too long is
/// cancelled, with its limit for a reason.
pub proof fn law_run_call_ends(
    re: &mut RunEngine,
    te: &mut RunEngine,
    limit: Span,
    e: CirrusError,
)
    requires
        call_ensures(RunEngine::end_run, (re,), ()),
        call_ensures(RunEngine::loop_timed_out, (te, limit), e),
    ensures
        !final(re)@.control.is_running,
        final(re)@.per_call_md.dom() =~= Set::empty(),
        final(re)@.msg_cache.len() == 0,
        final(re)@.replay_queue.len() == 0,
        !final(re)@.control.rewindable,
        final(re)@.md == old(re)@.md,
        final(re)@.subscribers == old(re)@.subscribers,
        final(re)@.hooks == old(re)@.hooks,
        final(re)@.control.scan_id == old(re)@.control.scan_id,
        e == CirrusError::Timeout(limit),
        final(te)@.control.cancelled,
        final(te)@ == (EngineView {
            control: Control { cancelled: true, ..old(te)@.control },
            ..old(te)@
        }),
{
}

/// The next message: none once an abort was requested, none while the engine is paused, then what
/// is to be delivered again, in order, and only then what the plan gives. A message that the plan
/// gives, or that is delivered again, goes on record where the region can be rewound and the
/// message acts on devices or data.
pub proof fn law_next_message(
    re: &mut RunEngine,
    f: Fetch,
    pe: &mut RunEngine,
    m: Msg,
    cacheable: bool,
)
    requires
        call_ensures(RunEngine::next_msg, (re,), f),
        call_ensures(RunEngine::plan_yielded, (pe, &m), ()),
        call_ensures(Msg::is_cacheable, (&m,), cacheable),
    ensures
        f is Ended <==> old(re)@.control.is_aborting,
        f is Paused <==> !old(re)@.control.is_aborting && old(re)@.control.is_paused,
        f matches Fetch::Replay(x) ==> old(re)@.replay_queue.len() > 0 && x
            == old(re)@.replay_queue[0] && final(re)@.replay_queue
            == old(re)@.replay_queue.drop_first(),
        f is Plan <==> !old(re)@.control.is_aborting && !old(re)@.control.is_paused
            && old(re)@.replay_queue.len() == 0,
        f !is Replay ==> final(re)@ == old(re)@,
        old(pe)@.control.rewindable && cacheable ==> final(pe)@.msg_cache.len()
            == old(pe)@.msg_cache.len() + 1 && final(pe)@.msg_cache.last() == m
            && final(pe)@.msg_cache.drop_last() == old(pe)@.msg_cache,
        !(old(pe)@.control.rewindable && cacheable) ==> final(pe)@ == old(pe)@,
        final(pe)@ == (EngineView { msg_cache: final(pe)@.msg_cache, ..old(pe)@ }),
{
    assert(old(pe)@.msg_cache.push(m).drop_last() =~= old(pe)@.msg_cache);
}

/// After the checkpoint hook has answered, a pause that waited for the checkpoint takes effect, and
/// nothing else happens.
pub proof fn law_deferred_pause_after_the_hook(re: &mut RunEngine, step: Step)
    requires
        call_ensures(RunEngine::checkpoint_recorded, (re,), step),
    ensures
        step.next == Next::Done(None),
        step.emit@.len() == 0,
        final(re)@.control.is_paused == (old(re)@.control.is_paused
            || old(re)@.control.deferred_pause),
        !final(re)@.control.deferred_pause,
        final(re)@ == (EngineView { control: final(re)@.control, ..old(re)@ }),
{
}

/// A new engine is idle: no run is open, nothing is on record, no hook is installed and no one
/// subscribed.
pub proof fn law_new_engine_is_idle(re: RunEngine, d: RunEngine, s: EngineRunState)
    requires
        call_ensures(RunEngine::new, (), re),
        call_ensures(<RunEngine as Default>::default, (), d),
        call_ensures(RunEngine::state, (&re,), s),
    ensures
        s is Idle,
        re@.bundler is None,
        re@.subscribers.len() == 0 && re@.temp_subscribers.len() == 0,
        re@.msg_cache.len() == 0 && re@.replay_queue.len() == 0,
        re@.staged.len() == 0 && re@.monitor_tasks.len() == 0 && re@.suspenders.len() == 0,
        re@.md.dom() =~= Set::empty() && re@.commands.dom() =~= Set::empty(),
        re@.groups.dom() =~= Set::empty(),
        re@.hooks.md_validator is None && re@.hooks.md_normalizer is None
            && re@.hooks.scan_id_source is None && re@.hooks.input_handler is None
            && re@.hooks.checkpoint_hook is None && re@.hooks.loop_timeout is None,
        !re@.control.is_paused && !re@.control.is_aborting && !re@.control.cancelled
            && !re@.control.rewindable,
        d@.bundler is None && d@.subscribers.len() == 0,
{
}

/// The message loop asks for a message only while there is no failure and no abort; it remembers the
/// run that was opened last and the error that ended it; and it hands a call of the engine on.
pub proof fn law_loop_takes_its_steps(
    l: &RunLoop,
    a: &mut RunEngine,
    asks: Ask,
    b: &mut RunEngine,
    m: Option<Msg>,
    told: Ask,
    n: &mut RunLoop,
    next: Next,
    call: Option<Call>,
    fresh: RunLoop,
)
    requires
        call_ensures(RunLoop::ask, (l, a), asks),
        call_ensures(RunLoop::yielded, (l, b, m), told),
        call_ensures(RunLoop::advance, (n, next), call),
        call_ensures(RunLoop::new, (), fresh),
    ensures
        asked(*l, old(a)@, final(a)@, asks),
        answered(old(b)@, final(b)@, m, told),
        l.failure is Some || old(a)@.control.is_aborting ==> asks is End,
        asks is Pause ==> old(a)@.control.is_paused,
        m is None ==> told is End,
        told matches Ask::Process(x) ==> m == Some(x),
        next matches Next::Done(Some(uid)) ==> final(n).run_uid == Some(uid),
        !(next matches Next::Done(Some(_))) ==> final(n).run_uid == old(n).run_uid,
        next matches Next::Failed(e) ==> final(n).failure == Some(e),
        !(next is Failed) ==> final(n).failure == old(n).failure,
        next matches Next::Call(c) ==> call == Some(c),
        !(next is Call) ==> call is None,
        fresh.run_uid is None && fresh.failure is None,
{
}

/// A wait for a group and a wait for factories go on as they are said to, from the first member on.
pub proof fn law_waits_take_their_steps(
    members: Vec<u64>,
    strict: bool,
    w: GroupWait,
    a: &mut GroupWait,
    first: GroupNext,
    b: &mut GroupWait,
    r: Result<(), StatusError>,
    then: GroupNext,
    factories: Arc<Vec<u64>>,
    v: FactoryWait,
    c: &mut FactoryWait,
    begun: FactoryNext,
    d: &mut FactoryWait,
    s: Result<(), CirrusError>,
    after: FactoryNext,
)
    requires
        call_ensures(GroupWait::new, (members, strict), w),
        call_ensures(GroupWait::begin, (a,), first),
        *old(a) == w,
        call_ensures(GroupWait::member_ended, (b, r), then),
        call_ensures(FactoryWait::new, (factories,), v),
        call_ensures(FactoryWait::begin, (c,), begun),
        *old(c) == v,
        call_ensures(FactoryWait::factory_ended, (d, s), after),
    ensures
        members@.len() == 0 ==> first == GroupNext::Over(Ok(())),
        members@.len() > 0 ==> first == GroupNext::Await(members@[0]),
        member_step(*old(b), *final(b), r, then),
        (*factories)@.len() == 0 ==> begun == FactoryNext::Over(Ok(())),
        (*factories)@.len() > 0 ==> begun == FactoryNext::Await((*factories)@[0]),
        factory_step(*old(d), *final(d), s, after),
{
}

/// A document is handed out from the first sink on, whatever a sink answers.
pub proof fn law_fan_out_takes_its_steps(
    sinks: usize,
    f: FanOut,
    a: &mut FanOut,
    re: &RunEngine,
    first: FanNext,
    b: &mut FanOut,
    answer: Result<(), CirrusError>,
    then: FanNext,
)
    requires
        call_ensures(FanOut::new, (sinks,), f),
        *old(a) == f,
        call_ensures(FanOut::begin, (a, re), first),
        call_ensures(FanOut::handed_over, (b, re, answer), then),
    ensures
        sinks > 0 ==> first == FanNext::Sink(0),
        sinks == 0 && re@.subscribers.len() > 0 ==> first == FanNext::Callback(
            re@.subscribers[0].1,
        ),
        sinks == 0 && re@.subscribers.len() == 0 ==> first is Over,
        fanned(*old(b), re@, *final(b), then),
{
}

} // verus!
