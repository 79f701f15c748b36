//! What holds of the engine as a whole.

use std::sync::Arc;

use vstd::prelude::*;

use super::control::{
    aborted, halted, has_other_id, paused, run_state, signal_action, signalled, stopped,
    without_id,
};
use super::dispatch::{
    at_checkpoint, docs_of, handled, lemma_filter_next, with_bundler, with_result,
};
use super::lifecycle::{
    attends, begun, cleaned, ended, interrupted, loop_finished, options_staged, started,
    without_ids, Cleanup,
};
use super::replay::{fetched, interruption_recorded, recorded, replayed, rewound, Fetch};
use super::replies::{
    counted, declared_by, failed, monitor_added, monitor_seeded, monitor_ticked, other_monitor,
    row_stream, rows_collected, rows_emitted, streams_declared, Row,
};
use super::run::{
    is_stop, merged_md, normalizing, opened_bundler, opening, run_closed, run_opened, validating,
    with_scan_id,
};
use super::run_loop::{advanced, asked, Ask, RunLoop};
use super::{
    fresh_engine, Control, EngineRunState, EngineView, MonitorView, Now, RunOptions, RunResult,
    Step,
};
use crate::bundler::{law_consistency_is_kept, stream_declared, values_of, BundlerView};
use crate::compose::BundleView;
use crate::documents::{DataKeyView, Document, Event, EventDescriptor, RunStart};
use crate::error::CirrusError;
use crate::msg::{cacheable, Msg, ObjRef, ObjView, RunMetadata};
use crate::reading::ReadingView;
use crate::value::{Double, JsonView};

verus! {

/// The start document behind a shared handle.
pub open spec fn start_in(d: Arc<Document>) -> RunStart {
    (*d)->Start_0
}

/// The descriptor behind a shared handle.
pub open spec fn descriptor_in(d: Arc<Document>) -> EventDescriptor {
    (*d)->Descriptor_0
}

/// The merged metadata of a run that is asked for.
pub open spec fn merged_for(e: EngineView, meta: Arc<RunMetadata>) -> Map<Seq<char>, JsonView> {
    merged_md(e.md, e.per_call_md, meta.extra@, crate::text::opt_text(meta.plan_name))
}

/// Whether subscription ids stand in the order in which they were handed out, none twice.
pub open spec fn ids_in_order(e: EngineView) -> bool {
    &&& forall|i: int, j: int|
        0 <= i < j < e.subscribers.len() ==> (#[trigger] e.subscribers[i]).0 < (
        #[trigger] e.subscribers[j]).0
    &&& forall|i: int|
        0 <= i < e.subscribers.len() ==> (#[trigger] e.subscribers[i]).0 <= e.control.sub_counter
}

/// Whether only messages that can be delivered again are recorded or queued for replay.
pub open spec fn replay_is_cacheable(e: EngineView) -> bool {
    &&& forall|i: int| 0 <= i < e.msg_cache.len() ==> cacheable(#[trigger] e.msg_cache[i])
    &&& forall|i: int| 0 <= i < e.replay_queue.len() ==> cacheable(#[trigger] e.replay_queue[i])
}

/// Whether no two monitors feed the same stream from the same device.
pub open spec fn monitors_differ(tasks: Seq<MonitorView>) -> bool {
    forall|i: int, j: int|
        0 <= i < j < tasks.len() ==> other_monitor(
            (#[trigger] tasks[i]).stream,
            tasks[i].obj_name,
        )(#[trigger] tasks[j])
}

/// The invariant of the engine: subscription ids are in order, only cacheable messages are
/// replayed, no two monitors do the same, a halt or a stop implies an abort, and the open run is
/// consistent.
pub open spec fn sound(e: EngineView) -> bool {
    &&& ids_in_order(e)
    &&& replay_is_cacheable(e)
    &&& monitors_differ(e.monitor_tasks)
    &&& e.control.is_halting ==> e.control.is_aborting
    &&& e.control.is_stopping ==> e.control.is_aborting
    &&& e.bundler matches Some(b) ==> b.consistent()
}

/// A new engine is sound.
pub proof fn law_new_engine_is_sound()
    ensures
        sound(fresh_engine()),
{
}

/// Filtering subscribers keeps their order.
proof fn lemma_filter_keeps_order(subs: Seq<(u64, u64)>, keep: spec_fn((u64, u64)) -> bool, n: int)
    requires
        0 <= n <= subs.len(),
        forall|i: int, j: int|
            0 <= i < j < subs.len() ==> (#[trigger] subs[i]).0 < (#[trigger] subs[j]).0,
    ensures
        ({
            let f = subs.take(n).filter(keep);
            &&& forall|i: int, j: int|
                0 <= i < j < f.len() ==> (#[trigger] f[i]).0 < (#[trigger] f[j]).0
            &&& forall|i: int|
                0 <= i < f.len() ==> exists|k: int|
                    0 <= k < n && #[trigger] subs[k] == #[trigger] f[i]
        }),
    decreases n,
{
    reveal(Seq::filter);
    if n > 0 {
        lemma_filter_keeps_order(subs, keep, n - 1);
        lemma_filter_next(subs, n - 1, keep);
        let g = subs.take(n - 1).filter(keep);
        let f = subs.take(n).filter(keep);
        assert forall|i: int| 0 <= i < f.len() implies exists|k: int|
            0 <= k < n && #[trigger] subs[k] == #[trigger] f[i] by {
            if i < g.len() {
                assert(f[i] == g[i]);
                let k = choose|k: int| 0 <= k < n - 1 && #[trigger] subs[k] == g[i];
                assert(subs[k] == f[i]);
            } else {
                assert(subs[n - 1] == f[i]);
            }
        }
        assert forall|i: int, j: int| 0 <= i < j < f.len() implies (#[trigger] f[i]).0 < (
        #[trigger] f[j]).0 by {
            assert(f[i] == g[i]);
            if j < g.len() {
                assert(f[j] == g[j]);
            } else {
                let k = choose|k: int| 0 <= k < n - 1 && #[trigger] subs[k] == g[i];
                assert(subs[k].0 < subs[n - 1].0);
            }
        }
    }
}

pub(crate) proof fn lemma_filtered_in_order(
    e: EngineView,
    after: EngineView,
    keep: spec_fn((u64, u64)) -> bool,
)
    requires
        ids_in_order(e),
        after.subscribers == e.subscribers.filter(keep),
        after.control.sub_counter == e.control.sub_counter,
    ensures
        ids_in_order(after),
{
    lemma_filter_keeps_order(e.subscribers, keep, e.subscribers.len() as int);
    assert(e.subscribers.take(e.subscribers.len() as int) =~= e.subscribers);
}

/// Filtering monitors keeps them different, and keeps only what it is to keep.
proof fn lemma_filtered_monitors(
    tasks: Seq<MonitorView>,
    keep: spec_fn(MonitorView) -> bool,
    n: int,
)
    requires
        0 <= n <= tasks.len(),
        monitors_differ(tasks),
    ensures
        monitors_differ(tasks.take(n).filter(keep)),
        forall|i: int|
            0 <= i < tasks.take(n).filter(keep).len() ==> {
                &&& keep(#[trigger] tasks.take(n).filter(keep)[i])
                &&& exists|k: int| 0 <= k < n && tasks[k] == tasks.take(n).filter(keep)[i]
            },
    decreases n,
{
    reveal(Seq::filter);
    let f = tasks.take(n).filter(keep);
    if n > 0 {
        lemma_filtered_monitors(tasks, keep, n - 1);
        lemma_filter_next(tasks, n - 1, keep);
        let g = tasks.take(n - 1).filter(keep);
        assert forall|i: int| 0 <= i < f.len() implies keep(#[trigger] f[i]) && exists|k: int|
            0 <= k < n && tasks[k] == f[i] by {
            if i < g.len() {
                assert(f[i] == g[i]);
                let k = choose|k: int| 0 <= k < n - 1 && tasks[k] == g[i];
                assert(tasks[k] == f[i]);
            } else {
                assert(tasks[n - 1] == f[i]);
            }
        }
        assert forall|i: int, j: int| 0 <= i < j < f.len() implies other_monitor(
            (#[trigger] f[i]).stream,
            f[i].obj_name,
        )(#[trigger] f[j]) by {
            assert(f[i] == g[i]);
            if j < g.len() {
                assert(f[j] == g[j]);
            } else {
                let k = choose|k: int| 0 <= k < n - 1 && tasks[k] == g[i];
                assert(other_monitor(tasks[k].stream, tasks[k].obj_name)(tasks[n - 1]));
            }
        }
    }
}

/// Requests from outside keep the engine sound: pause, resume, abort, halt, stop.
pub proof fn law_control_keeps_soundness(e: EngineView, defer: bool)
    requires
        sound(e),
    ensures
        sound(EngineView { control: paused(e.control, defer), ..e }),
        sound(EngineView { control: (Control { is_paused: false, ..e.control }), ..e }),
        sound(EngineView { control: aborted(e.control), ..e }),
        sound(EngineView { control: halted(e.control), ..e }),
        sound(EngineView { control: stopped(e.control), ..e }),
{
}

proof fn lemma_opening_keeps_soundness(
    before: EngineView,
    after: EngineView,
    step: Step,
    merged: Map<Seq<char>, JsonView>,
    id: u64,
    time: Double,
)
    requires
        sound(before),
        validating(before, after, step, merged, id, time) || normalizing(
            before,
            after,
            step,
            merged,
            id,
            time,
        ) || run_opened(before, after, step, merged, id, time),
    ensures
        sound(after),
{
    if before.hooks.md_validator is None && before.hooks.md_normalizer is None || run_opened(
        before,
        after,
        step,
        merged,
        id,
        time,
    ) {
        if before.bundler is None && run_opened(before, after, step, merged, id, time) {
            let uid = start_in(step.emit@[0]).uid@;
            let b = opened_bundler(uid);
            assert(b.consistent());
            if before.control.record_interruptions {
                let d = descriptor_in(step.emit@[1]);
                law_consistency_is_kept(
                    b.bundle,
                    b,
                    after.bundler->0,
                    "interruptions"@,
                    d,
                    seq![],
                    time,
                );
            }
        }
    }
}

/// Processing a message keeps the engine sound.
pub proof fn law_handle_keeps_soundness(
    before: EngineView,
    after: EngineView,
    msg: Msg,
    step: Step,
    now: Now,
)
    requires
        sound(before),
        super::dispatch::admits(before, msg),
        handled(before, after, msg, step, now),
    ensures
        sound(after),
{
    match msg {
        Msg::OpenRun(meta) => {
            let merged = merged_for(before, meta);
            match (meta.scan_id, before.hooks.scan_id_source) {
                (Some(id), _) => {
                    let mid = EngineView {
                        control: Control { scan_id: id, ..before.control },
                        ..before
                    };
                    assert(sound(mid));
                    lemma_opening_keeps_soundness(
                        mid,
                        after,
                        step,
                        with_scan_id(merged, id),
                        id,
                        now.time,
                    );
                },
                (None, Some(_)) => {},
                (None, None) => {
                    let id = (before.control.scan_id + 1) as u64;
                    let mid = EngineView {
                        control: Control { scan_id: id, ..before.control },
                        ..before
                    };
                    assert(sound(mid));
                    lemma_opening_keeps_soundness(
                        mid,
                        after,
                        step,
                        with_scan_id(merged, id),
                        id,
                        now.time,
                    );
                },
            }
        },
        Msg::Save => {
            if before.bundler is Some && before.bundler->0.open is Some {
                let b = before.bundler->0;
                let empty = BundleView { start_uid: seq![], streams: Map::empty() };
                law_consistency_is_kept(
                    empty,
                    b,
                    after.bundler->0,
                    seq![],
                    arbitrary(),
                    docs_of(step.emit@),
                    now.time,
                );
            }
        },
        Msg::DeclareStream { stream_name, .. } => {
            if before.bundler is Some {
                let empty = BundleView { start_uid: seq![], streams: Map::empty() };
                law_consistency_is_kept(
                    empty,
                    before.bundler->0,
                    after.bundler->0,
                    stream_name@,
                    descriptor_in(step.emit@[0]),
                    seq![],
                    now.time,
                );
            }
        },
        Msg::Unsubscribe(id) => {
            lemma_filtered_in_order(before, after, has_other_id(id));
        },
        Msg::Unmonitor(obj) => {
            let tasks = before.monitor_tasks;
            let keep = |t: MonitorView| t.obj_name != obj.name@;
            lemma_filtered_monitors(tasks, keep, tasks.len() as int);
            assert(tasks.take(tasks.len() as int) =~= tasks);
        },
        Msg::CloseRun { .. } => {
            assert(with_result(after, before.last_msg_result).monitor_tasks == after.monitor_tasks);
            assert(with_result(after, before.last_msg_result).subscribers == after.subscribers);
        },
        _ => {},
    }
}

/// Fetching and recording messages, entering the pause gate, and rewinding on a resume keep the
/// engine sound.
pub proof fn law_delivery_keeps_soundness(before: EngineView, after: EngineView, f: Fetch, m: Msg)
    requires
        sound(before),
    ensures
        fetched(before, after, f) ==> sound(after),
        sound(recorded(before, m)),
        sound(EngineView { monitor_tasks: seq![], ..before }),
        sound(rewound(before)),
{
    if fetched(before, after, f) && after.replay_queue != before.replay_queue {
        assert(before.replay_queue.len() > 0);
        assert forall|i: int| 0 <= i < after.replay_queue.len() implies cacheable(
            #[trigger] after.replay_queue[i],
        ) by {
            assert(after.replay_queue[i] == before.replay_queue[i + 1]);
        }
    }
    let r = rewound(before);
    assert forall|i: int| 0 <= i < r.replay_queue.len() implies cacheable(
        #[trigger] r.replay_queue[i],
    ) by {
        if i < before.msg_cache.len() {
            assert(r.replay_queue[i] == before.msg_cache[i]);
        } else {
            assert(r.replay_queue[i] == before.replay_queue[i - before.msg_cache.len()]);
        }
    }
}

/// The beginning, the end and the cleanup of a run call keep the engine sound.
pub proof fn law_run_call_keeps_soundness(
    before: EngineView,
    after: EngineView,
    opts: RunOptions,
    run_uid: Option<String>,
    failure: Option<CirrusError>,
    now: Now,
    result: RunResult,
    emit: Seq<Arc<Document>>,
)
    requires
        sound(before),
    ensures
        sound(begun(before)),
        before.control.sub_counter + opts.subs@.len() <= u64::MAX && options_staged(
            before,
            after,
            opts,
        ) ==> sound(after),
        loop_finished(before, after, run_uid, failure, now, result, emit) ==> sound(after),
        sound(cleaned(before)),
        sound(ended(before)),
{
    lemma_filtered_in_order(
        before,
        cleaned(before),
        |s: (u64, u64)| !before.temp_subscribers.contains(s.0),
    );
    if before.control.sub_counter + opts.subs@.len() <= u64::MAX && options_staged(
        before,
        after,
        opts,
    ) {
        let n = before.subscribers.len();
        assert forall|i: int, j: int| 0 <= i < j < after.subscribers.len() implies (
        #[trigger] after.subscribers[i]).0 < (#[trigger] after.subscribers[j]).0 by {
            if i < n {
                assert(after.subscribers[i] == before.subscribers[i]);
            }
            if j < n {
                assert(after.subscribers[j] == before.subscribers[j]);
            }
        }
        assert forall|i: int| 0 <= i < after.subscribers.len() implies (
        #[trigger] after.subscribers[i]).0 <= after.control.sub_counter by {
            if i < n {
                assert(after.subscribers[i] == before.subscribers[i]);
            }
        }
    }
}

/// Declaring streams for a collection keeps the open run consistent.
proof fn lemma_streams_declared_consistent(
    before: BundlerView,
    after: BundlerView,
    streams: Seq<(Seq<char>, Map<Seq<char>, DataKeyView>)>,
    docs: Seq<Arc<Document>>,
    time: Double,
)
    requires
        before.consistent(),
        streams_declared(before, after, streams, docs, time),
    ensures
        after.consistent(),
    decreases streams.len(),
{
    if streams.len() > 0 {
        let (name, keys) = streams.last();
        let rest = streams.drop_last();
        if after.described(name) is Some && streams_declared(before, after, rest, docs, time) {
            lemma_streams_declared_consistent(before, after, rest, docs, time);
        } else {
            let mid = choose|mid: BundlerView|
                {
                    &&& #[trigger] declared_by(mid, after, name, keys, *docs.last(), time)
                    &&& streams_declared(before, mid, rest, docs.drop_last(), time)
                };
            lemma_streams_declared_consistent(before, mid, rest, docs.drop_last(), time);
            let empty = BundleView { start_uid: seq![], streams: Map::empty() };
            law_consistency_is_kept(
                empty,
                mid,
                after,
                name,
                descriptor_in(docs.last()),
                seq![],
                time,
            );
        }
    }
}

proof fn lemma_counted_consistent(b: BundlerView, rows: Seq<Row>, stream_name: Option<String>, n: int)
    requires
        b.consistent(),
        0 <= n <= rows.len(),
        forall|i: int|
            0 <= i < n ==> b.bundle.streams.dom().contains(
                row_stream(#[trigger] rows[i], stream_name),
            ),
    ensures
        (BundlerView { bundle: counted(b.bundle, rows, stream_name, n), ..b }).consistent(),
        counted(b.bundle, rows, stream_name, n).streams.dom() == b.bundle.streams.dom(),
    decreases n,
{
    if n > 0 {
        lemma_counted_consistent(b, rows, stream_name, n - 1);
        let stream = row_stream(rows[n - 1], stream_name);
        let prev = counted(b.bundle, rows, stream_name, n - 1);
        let now = counted(b.bundle, rows, stream_name, n);
        assert(now.streams.dom() =~= b.bundle.streams.dom());
        assert forall|k: Seq<char>| #[trigger]
            now.streams.dom().contains(k) implies b.descriptors.dom().contains(k)
            && now.streams[k].descriptor_uid.len() > 0 by {
            let kept = BundlerView { bundle: prev, ..b };
            assert(kept.consistent());
            assert(now == prev.count(stream));
            assert(prev.streams.dom() == b.bundle.streams.dom());
            assert(b.bundle.streams.dom().contains(stream));
            assert(kept.bundle.streams.dom().contains(k));
            assert(kept.bundle.streams.dom().contains(stream));
        }
    }
}

/// The replies that compose documents keep the engine sound.
pub proof fn law_replies_keep_soundness(
    before: EngineView,
    after: EngineView,
    streams: Seq<(Seq<char>, Map<Seq<char>, DataKeyView>)>,
    rows: Seq<Row>,
    stream_name: Option<String>,
    step: Step,
    content: Seq<char>,
    doc: Option<Arc<Document>>,
    task: MonitorView,
    readings: Map<Seq<char>, ReadingView>,
    value: JsonView,
    stamp: Double,
    event: Option<Event>,
    now: Now,
)
    requires
        sound(before),
    ensures
        before.bundler is Some && after.bundler is Some && after == with_bundler(
            before,
            after.bundler->0,
        ) && streams_declared(
            before.bundler->0,
            after.bundler->0,
            streams,
            step.emit@,
            now.time,
        ) ==> sound(after),
        rows_collected(before, after, rows, stream_name, step, now.time) ==> sound(after),
        interruption_recorded(before, after, content, now.time, doc) ==> sound(after),
        monitor_seeded(before, after, task.stream, readings, step.emit@, now.time) ==> sound(
            after,
        ),
        monitor_ticked(before, after, task, value, stamp, now.time, event) ==> sound(after),
        sound(
            EngineView {
                monitor_tasks: monitor_added(before.monitor_tasks, task),
                ..before
            },
        ),
{
    let tasks = before.monitor_tasks;
    let kept = tasks.filter(other_monitor(task.stream, task.obj_name));
    lemma_filtered_monitors(
        tasks,
        other_monitor(task.stream, task.obj_name),
        tasks.len() as int,
    );
    assert(tasks.take(tasks.len() as int) =~= tasks);
    assert forall|i: int, j: int| 0 <= i < j < monitor_added(tasks, task).len() implies other_monitor(
        (#[trigger] monitor_added(tasks, task)[i]).stream,
        monitor_added(tasks, task)[i].obj_name,
    )(#[trigger] monitor_added(tasks, task)[j]) by {
        assert(monitor_added(tasks, task)[i] == kept[i]);
        if j < kept.len() {
            assert(monitor_added(tasks, task)[j] == kept[j]);
        } else {
            assert(monitor_added(tasks, task)[j] == task);
        }
    }
    if before.bundler is Some && after.bundler is Some && after == with_bundler(
        before,
        after.bundler->0,
    ) && streams_declared(
        before.bundler->0,
        after.bundler->0,
        streams,
        step.emit@,
        now.time,
    ) {
        lemma_streams_declared_consistent(
            before.bundler->0,
            after.bundler->0,
            streams,
            step.emit@,
            now.time,
        );
    }
    if rows_collected(before, after, rows, stream_name, step, now.time) && before.bundler is Some {
        let b = before.bundler->0;
        let n = step.emit@.len() as int;
        lemma_emitted_rows_are_declared(b.bundle, rows, stream_name, step.emit@, n, now.time);
        lemma_counted_consistent(b, rows, stream_name, n);
    }
}

/// The first event of a monitored stream is the reading of the device: it has the number one and
/// refers to the descriptor of the stream.
pub proof fn law_monitor_starts_with_a_reading(
    before: EngineView,
    described: EngineView,
    after: EngineView,
    stream: Seq<char>,
    d: EventDescriptor,
    readings: Map<Seq<char>, ReadingView>,
    emit: Seq<Arc<Document>>,
    t1: Double,
    t2: Double,
)
    requires
        before.bundler is Some,
        described.bundler is Some,
        !before.bundler->0.bundle.streams.dom().contains(stream),
        stream_declared(before.bundler->0, described.bundler->0, stream, d, t1),
        monitor_seeded(described, after, stream, readings, emit, t2),
    ensures
        emit.len() == 1,
        match *emit[0] {
            Document::Event(e) => e.seq_num == 1 && e.descriptor@ == d.uid@ && e.data@ == values_of(
                readings,
            ),
            _ => false,
        },
{
}

/// A device that is no longer monitored emits nothing, whatever update still comes from it: once
/// it was unmonitored no monitor of it composes an event, and while no monitor runs, as after a
/// pause or the end of a run call, none at all does. The engine stays as it is.
pub proof fn law_unmonitored_device_is_silent(
    before: EngineView,
    mid: EngineView,
    after: EngineView,
    obj: ObjRef,
    s: Step,
    now: Now,
    task: MonitorView,
    value: JsonView,
    stamp: Double,
    time: Double,
    event: Option<Event>,
)
    requires
        monitor_ticked(mid, after, task, value, stamp, time, event),
        mid.monitor_tasks.len() == 0 || handled(before, mid, Msg::Unmonitor(obj), s, now)
            && task.obj_name == obj.name@,
    ensures
        event is None,
        after == mid,
{
    if handled(before, mid, Msg::Unmonitor(obj), s, now) && task.obj_name == obj.name@ {
        let tasks = before.monitor_tasks;
        let keep = |t: MonitorView| t.obj_name != obj.name@;
        lemma_filter_keeps_only(tasks, keep, tasks.len() as int);
        assert(tasks.take(tasks.len() as int) =~= tasks);
        assert(mid.monitor_tasks == tasks.filter(keep));
    }
}

/// Filtering keeps only what it is to keep.
proof fn lemma_filter_keeps_only<T>(s: Seq<T>, keep: spec_fn(T) -> bool, n: int)
    requires
        0 <= n <= s.len(),
    ensures
        forall|i: int| 0 <= i < s.take(n).filter(keep).len() ==> keep(#[trigger] s.take(n).filter(keep)[i]),
    decreases n,
{
    reveal(Seq::filter);
    if n > 0 {
        lemma_filter_keeps_only(s, keep, n - 1);
        lemma_filter_next(s, n - 1, keep);
    }
}

/// Rows that became events went to declared streams.
proof fn lemma_emitted_rows_are_declared(
    b: BundleView,
    rows: Seq<Row>,
    stream_name: Option<String>,
    emit: Seq<Arc<Document>>,
    n: int,
    time: Double,
)
    requires
        0 <= n <= rows.len(),
        emit.len() >= n,
        rows_emitted(b, rows, stream_name, emit.take(n), n, time),
    ensures
        counted(b, rows, stream_name, n).streams.dom() == b.streams.dom(),
        forall|i: int|
            0 <= i < n ==> b.streams.dom().contains(row_stream(#[trigger] rows[i], stream_name)),
    decreases n,
{
    if n > 0 {
        assert forall|i: int| 0 <= i < n - 1 implies match *(#[trigger] emit.take(n - 1)[i]) {
            Document::Event(e) => {
                &&& crate::compose::event_composed(
                    counted(b, rows, stream_name, i),
                    counted(b, rows, stream_name, i + 1),
                    row_stream(rows[i], stream_name),
                    e,
                )
                &&& e.time == time
                &&& e.data == rows[i].1
                &&& e.timestamps == rows[i].2
            },
            _ => false,
        } by {
            assert(emit.take(n - 1)[i] == emit.take(n)[i]);
        }
        lemma_emitted_rows_are_declared(b, rows, stream_name, emit, n - 1, time);
        let last = emit.take(n)[n - 1];
        assert(b.streams.dom().contains(row_stream(rows[n - 1], stream_name)));
        assert(counted(b, rows, stream_name, n).streams.dom() =~= b.streams.dom());
    }
}

/// Inside a run call a halt outranks an abort, and both outrank a pause; outside one the engine
/// is idle; at the beginning of a run call it runs.
pub proof fn law_state_order(c: Control)
    ensures
        c.is_running ==> run_state(halted(c)) == EngineRunState::Halting,
        c.is_running && !c.is_halting ==> run_state(aborted(c)) == EngineRunState::Aborting,
        c.is_running && !c.is_halting && !c.is_aborting ==> run_state(paused(c, false))
            == EngineRunState::Paused,
        !c.is_running ==> run_state(halted(c)) == EngineRunState::Idle && run_state(aborted(c))
            == EngineRunState::Idle && run_state(paused(c, false)) == EngineRunState::Idle,
        run_state(started(c)) == EngineRunState::Running,
        paused(c, true).is_paused == c.is_paused,
{
}

/// The three taps: in a run call that has seen no signal, the first interrupt pauses, the
/// second aborts and the third halts.
pub proof fn law_three_taps(c: Control)
    requires
        c.is_running,
        c.sigint_count == 0,
        !c.is_halting,
        !c.is_aborting,
    ensures
        ({
            let c1 = signalled(Control { sigint_count: 1, ..c }, signal_action(1));
            let c2 = signalled(Control { sigint_count: 2, ..c1 }, signal_action(2));
            let c3 = signalled(Control { sigint_count: 3, ..c2 }, signal_action(3));
            &&& run_state(c1) == EngineRunState::Paused
            &&& run_state(c2) == EngineRunState::Aborting
            &&& run_state(c3) == EngineRunState::Halting
        }),
{
}

/// A subscription that is ended at once leaves the subscribers as they were, and its id is
/// one that no subscriber had.
pub proof fn law_subscribe_then_unsubscribe(e: EngineView, callback: u64)
    requires
        sound(e),
        e.control.sub_counter < u64::MAX,
    ensures
        ({
            let id = (e.control.sub_counter + 1) as u64;
            &&& without_id(e.subscribers.push((id, callback)), id) == e.subscribers
            &&& forall|i: int| 0 <= i < e.subscribers.len() ==> (#[trigger] e.subscribers[i]).0
                != id
        }),
{
    let id = (e.control.sub_counter + 1) as u64;
    let keep = has_other_id(id);
    let all = e.subscribers.push((id, callback));
    lemma_filter_next(all, e.subscribers.len() as int, keep);
    assert(all.take(e.subscribers.len() as int) =~= e.subscribers);
    assert(all.take(all.len() as int) =~= all);
    lemma_filter_keeps_all(e.subscribers, keep, e.subscribers.len() as int);
    assert(e.subscribers.take(e.subscribers.len() as int) =~= e.subscribers);
}

proof fn lemma_filter_keeps_all<T>(s: Seq<T>, keep: spec_fn(T) -> bool, n: int)
    requires
        0 <= n <= s.len(),
        forall|i: int| 0 <= i < n ==> keep(#[trigger] s[i]),
    ensures
        s.take(n).filter(keep) == s.take(n),
    decreases n,
{
    reveal(Seq::filter);
    if n > 0 {
        lemma_filter_keeps_all(s, keep, n - 1);
        lemma_filter_next(s, n - 1, keep);
        assert(s.take(n) =~= s.take(n - 1).push(s[n - 1]));
    } else {
        assert(s.take(0) =~= Seq::empty());
    }
}

/// The cleanup ends the temporary subscriptions and no others, and empties the registers of
/// the run call.
pub proof fn law_cleanup_ends_temporary_subscriptions(e: EngineView)
    ensures
        forall|i: int|
            0 <= i < cleaned(e).subscribers.len() ==> !e.temp_subscribers.contains(
                (#[trigger] cleaned(e).subscribers[i]).0,
            ),
        forall|i: int|
            0 <= i < e.subscribers.len() && !e.temp_subscribers.contains(
                (#[trigger] e.subscribers[i]).0,
            ) ==> cleaned(e).subscribers.contains(e.subscribers[i]),
        cleaned(e).staged.len() == 0,
        cleaned(e).monitor_tasks.len() == 0,
        cleaned(e).suspenders.len() == 0,
{
    lemma_filter_contains(e.subscribers, e.temp_subscribers, e.subscribers.len() as int);
    assert(e.subscribers.take(e.subscribers.len() as int) =~= e.subscribers);
}

proof fn lemma_filter_contains(subs: Seq<(u64, u64)>, ids: Seq<u64>, n: int)
    requires
        0 <= n <= subs.len(),
    ensures
        forall|i: int|
            0 <= i < n && !ids.contains((#[trigger] subs[i]).0) ==> without_ids(
                subs.take(n),
                ids,
            ).contains(subs[i]),
        forall|i: int|
            0 <= i < without_ids(subs.take(n), ids).len() ==> !ids.contains(
                (#[trigger] without_ids(subs.take(n), ids)[i]).0,
            ),
    decreases n,
{
    reveal(Seq::filter);
    if n > 0 {
        let keep = |s: (u64, u64)| !ids.contains(s.0);
        lemma_filter_contains(subs, ids, n - 1);
        lemma_filter_next(subs, n - 1, keep);
        let g = without_ids(subs.take(n - 1), ids);
        let f = without_ids(subs.take(n), ids);
        assert forall|i: int| 0 <= i < n && !ids.contains((#[trigger] subs[i]).0) implies f.contains(
            subs[i],
        ) by {
            if i < n - 1 {
                assert(g.contains(subs[i]));
                let k = choose|k: int| 0 <= k < g.len() && g[k] == subs[i];
                assert(f[k] == subs[i]);
            } else {
                assert(f[g.len() as int] == subs[i]);
            }
        }
        assert forall|i: int| 0 <= i < f.len() implies !ids.contains((#[trigger] f[i]).0) by {
            if i < g.len() {
                assert(f[i] == g[i]);
            }
        }
    }
}

/// Closing a run twice is closing it once.
pub proof fn law_close_is_idempotent(
    e0: EngineView,
    e1: EngineView,
    e2: EngineView,
    emit1: Seq<Arc<Document>>,
    emit2: Seq<Arc<Document>>,
    status1: Seq<char>,
    status2: Seq<char>,
    reason1: Option<Seq<char>>,
    reason2: Option<Seq<char>>,
    time: Double,
)
    requires
        run_closed(e0, e1, emit1, status1, reason1, time),
        run_closed(e1, e2, emit2, status2, reason2, time),
    ensures
        emit2.len() == 0,
        e2 == e1,
{
}

/// When the message loop ends no run is left open, and if one was open its stop document says
/// how the loop ended.
pub proof fn law_no_run_is_left_open(
    before: EngineView,
    after: EngineView,
    run_uid: Option<String>,
    failure: Option<CirrusError>,
    now: Now,
    result: RunResult,
    emit: Seq<Arc<Document>>,
)
    requires
        loop_finished(before, after, run_uid, failure, now, result, emit),
    ensures
        after.bundler is None,
        before.bundler matches Some(b) ==> emit.len() == 1 && match *emit[0] {
            Document::Stop(s) => s.run_start@ == b.bundle.start_uid && s.exit_status@
                == result.exit_status@,
            _ => false,
        },
{
}

/// A stop closes the run as a success with the reason `user-requested stop`, an abort with the
/// reason `user-requested abort`, a halt without a reason, also where they cut a wait short.
pub proof fn law_exit_statuses(
    e: EngineView,
    after: EngineView,
    run_uid: Option<String>,
    failure: Option<CirrusError>,
    now: Now,
    result: RunResult,
    emit: Seq<Arc<Document>>,
)
    requires
        failure is None || failure->0 is Cancelled && interrupted(e.control),
        loop_finished(e, after, run_uid, failure, now, result, emit),
    ensures
        e.control.is_halting ==> result.exit_status@ == "halt"@,
        !e.control.is_halting && e.control.is_stopping ==> result.exit_status@ == "success"@,
        !e.control.is_halting && !e.control.is_stopping && e.control.is_aborting
            ==> result.exit_status@ == "abort"@,
        e.bundler is Some ==> emit.len() == 1 && is_stop(
            *emit[0],
            e.bundler->0.bundle,
            result.exit_status@,
            if e.control.is_halting {
                None
            } else if e.control.is_stopping {
                Some("user-requested stop"@)
            } else if e.control.is_aborting {
                Some("user-requested abort"@)
            } else {
                None
            },
            now.time,
        ),
{
}

/// An abort, a stop or a halt in the middle of a sleep ends the sleep, and closes the run as it
/// would have between two messages.
pub proof fn law_interrupted_sleep(
    e: EngineView,
    after: EngineView,
    step: Step,
    run_uid: Option<String>,
    now: Now,
    result: RunResult,
    emit: Seq<Arc<Document>>,
)
    requires
        interrupted(e.control),
        failed(step, CirrusError::Cancelled),
        loop_finished(
            e,
            after,
            run_uid,
            advanced(RunLoop { run_uid, failure: None }, step.next).failure,
            now,
            result,
            emit,
        ),
    ensures
        loop_finished(e, after, run_uid, None, now, result, emit),
{
}

/// A `Fail` message closes the open run with the status `fail` and its own text as the reason.
pub proof fn law_fail_gives_its_reason(
    e0: EngineView,
    e1: EngineView,
    e2: EngineView,
    reason: String,
    step: Step,
    now: Now,
    run_uid: Option<String>,
    result: RunResult,
    emit: Seq<Arc<Document>>,
)
    requires
        e0.bundler is Some,
        handled(e0, e1, Msg::Fail(reason), step, now),
        step.next is Failed,
        loop_finished(e1, e2, run_uid, Some(step.next->Failed_0), now, result, emit),
    ensures
        result.exit_status@ == "fail"@,
        emit.len() == 1,
        is_stop(*emit[0], e0.bundler->0.bundle, "fail"@, Some(reason@), now.time),
{
}

/// How messages are delivered between two checkpoints.
pub enum Delivery {
    /// The plan yields a message, once nothing is left to replay.
    Yielded(Msg),
    /// A message is replayed.
    Replayed,
    /// The engine resumes after a pause.
    Resumed,
}

/// Whether `d` can come next.
pub open spec fn deliverable(e: EngineView, d: Delivery) -> bool {
    match d {
        Delivery::Yielded(_) => e.replay_queue.len() == 0,
        Delivery::Replayed => e.replay_queue.len() > 0,
        Delivery::Resumed => true,
    }
}

/// The engine after `d`.
pub open spec fn delivered(e: EngineView, d: Delivery) -> EngineView {
    match d {
        Delivery::Yielded(m) => recorded(e, m),
        Delivery::Replayed => replayed(e),
        Delivery::Resumed => rewound(e),
    }
}

/// Whether two engines agree on what is recorded and what is left to replay.
pub open spec fn same_record(a: EngineView, b: EngineView) -> bool {
    &&& a.msg_cache == b.msg_cache
    &&& a.replay_queue == b.replay_queue
    &&& a.control.rewindable == b.control.rewindable
}

/// The messages that the plan yielded, in order.
pub open spec fn yields(ds: Seq<Delivery>) -> Seq<Msg>
    decreases ds.len(),
{
    if ds.len() == 0 {
        seq![]
    } else {
        match ds.last() {
            Delivery::Yielded(m) => yields(ds.drop_last()).push(m),
            _ => yields(ds.drop_last()),
        }
    }
}

/// Whether the engine went through `es` by the deliveries `ds`. What is done with a message
/// leaves the record alone.
pub open spec fn went_through(es: Seq<EngineView>, ds: Seq<Delivery>) -> bool {
    &&& es.len() == ds.len() + 1
    &&& forall|i: int|
        0 <= i < ds.len() ==> deliverable(es[i], #[trigger] ds[i]) && same_record(
            delivered(es[i], ds[i]),
            es[i + 1],
        )
}

/// Every resume replays the cacheable messages that the plan yielded since the checkpoint, in
/// order and each once, however often the engine was paused and resumed since then, and whether or
/// not it was paused while it replayed. At the checkpoint nothing is left to replay.
pub proof fn law_replay_since_checkpoint(e: EngineView, es: Seq<EngineView>, ds: Seq<Delivery>)
    requires
        e.replay_queue.len() == 0,
        went_through(es, ds),
        same_record(at_checkpoint(e), es[0]),
    ensures
        rewound(es.last()).replay_queue == yields(ds).filter(|m: Msg| cacheable(m)),
{
    lemma_record_and_queue(e, es, ds, ds.len() as int);
    assert(ds.take(ds.len() as int) =~= ds);
    assert(rewound(es.last()).replay_queue =~= yields(ds).filter(|m: Msg| cacheable(m)));
}

/// What is recorded and what is left to replay are, together, what the plan yielded.
proof fn lemma_record_and_queue(e: EngineView, es: Seq<EngineView>, ds: Seq<Delivery>, n: int)
    requires
        e.replay_queue.len() == 0,
        went_through(es, ds),
        same_record(at_checkpoint(e), es[0]),
        0 <= n <= ds.len(),
    ensures
        es[n].msg_cache + es[n].replay_queue == yields(ds.take(n)).filter(|m: Msg| cacheable(m)),
        es[n].control.rewindable,
        replay_is_cacheable(es[n]),
    decreases n,
{
    let f = |m: Msg| cacheable(m);
    reveal(Seq::filter);
    if n == 0 {
        assert(es[0].msg_cache + es[0].replay_queue =~= Seq::empty());
        assert(yields(ds.take(0)).filter(f) =~= Seq::empty());
    } else {
        lemma_record_and_queue(e, es, ds, n - 1);
        let a = es[n - 1];
        let b = es[n];
        let d = ds[n - 1];
        assert(ds.take(n).drop_last() =~= ds.take(n - 1));
        assert(deliverable(a, d) && same_record(delivered(a, d), b));
        match d {
            Delivery::Yielded(m) => {
                let before = yields(ds.take(n - 1));
                assert(before.push(m).drop_last() =~= before);
                if cacheable(m) {
                    assert(b.msg_cache + b.replay_queue =~= (a.msg_cache + a.replay_queue).push(
                        m,
                    ));
                } else {
                    assert(b.msg_cache + b.replay_queue =~= a.msg_cache + a.replay_queue);
                }
            },
            Delivery::Replayed => {
                assert(cacheable(a.replay_queue[0]));
                assert(b.msg_cache + b.replay_queue =~= a.msg_cache + a.replay_queue);
                assert forall|i: int| 0 <= i < b.replay_queue.len() implies cacheable(
                    #[trigger] b.replay_queue[i],
                ) by {
                    assert(b.replay_queue[i] == a.replay_queue[i + 1]);
                }
            },
            Delivery::Resumed => {
                assert(b.msg_cache + b.replay_queue =~= a.msg_cache + a.replay_queue);
                assert forall|i: int| 0 <= i < b.replay_queue.len() implies cacheable(
                    #[trigger] b.replay_queue[i],
                ) by {
                    if i < a.msg_cache.len() {
                        assert(b.replay_queue[i] == a.msg_cache[i]);
                    } else {
                        assert(b.replay_queue[i] == a.replay_queue[i - a.msg_cache.len()]);
                    }
                }
            },
        }
    }
}

/// What is queued for replay is delivered in order, before the plan yields anything: the engine
/// goes through `es`, and each of `fs` is what it fetches next.
pub proof fn law_replay_comes_first(
    es: Seq<EngineView>,
    afters: Seq<EngineView>,
    fs: Seq<Fetch>,
    n: int,
)
    requires
        0 <= n <= fs.len() <= es[0].replay_queue.len(),
        es.len() == fs.len() + 1,
        afters.len() == fs.len(),
        forall|i: int|
            0 <= i < fs.len() ==> fetched(es[i], afters[i], #[trigger] fs[i])
                && !es[i].control.is_aborting && !es[i].control.is_paused
                && es[i + 1].replay_queue == afters[i].replay_queue,
    ensures
        forall|i: int| 0 <= i < n ==> #[trigger] fs[i] == Fetch::Replay(es[0].replay_queue[i]),
        es[n].replay_queue == es[0].replay_queue.skip(n),
    decreases n,
{
    if n == 0 {
        assert(es[0].replay_queue.skip(0) =~= es[0].replay_queue);
    } else {
        law_replay_comes_first(es, afters, fs, n - 1);
        assert(fetched(es[n - 1], afters[n - 1], fs[n - 1]));
        assert(es[n].replay_queue =~= es[0].replay_queue.skip(n));
    }
}

/// A checkpoint is never replayed: it comes from the plan, which yields only once nothing is left
/// to replay.
pub proof fn law_checkpoint_comes_from_the_plan(
    l: RunLoop,
    before: EngineView,
    after: EngineView,
    a: Ask,
)
    requires
        sound(before),
        asked(l, before, after, a),
    ensures
        a != Ask::Process(Msg::Checkpoint),
        a is Plan ==> after.replay_queue.len() == 0,
{
    if before.replay_queue.len() > 0 {
        assert(cacheable(before.replay_queue[0]));
    }
}

/// Outside a rewindable region nothing is recorded.
pub proof fn law_nothing_recorded_outside(e: EngineView, m: Msg)
    requires
        !e.control.rewindable,
    ensures
        recorded(e, m) == e,
{
}

/// Processing a message changes the record and the replay queue only at a checkpoint, where the
/// record is emptied, and at the end of a run, which ends the rewindable region.
pub proof fn law_what_touches_the_record(
    before: EngineView,
    after: EngineView,
    msg: Msg,
    step: Step,
    now: Now,
)
    requires
        handled(before, after, msg, step, now),
    ensures
        msg is CloseRun && before.bundler is Some ==> after.msg_cache.len() == 0
            && after.replay_queue.len() == 0 && !after.control.rewindable,
        !(msg is CloseRun && before.bundler is Some) ==> {
            &&& after.replay_queue == before.replay_queue
            &&& msg is Checkpoint || msg is ClearCheckpoint ==> after.msg_cache.len() == 0
            &&& !(msg is Checkpoint || msg is ClearCheckpoint) ==> after.msg_cache
                == before.msg_cache
            &&& !(msg is Checkpoint || msg is ClearCheckpoint || msg is Rewindable)
                ==> after.control.rewindable == before.control.rewindable
            &&& msg is Checkpoint ==> after.control.rewindable
            &&& msg is ClearCheckpoint ==> !after.control.rewindable
        },
{
    match msg {
        Msg::CloseRun { .. } => {
            let mid = with_result(after, before.last_msg_result);
            assert(mid.msg_cache == after.msg_cache && mid.control == after.control
                && mid.replay_queue == after.replay_queue);
        },
        _ => {},
    }
}

/// Nothing of a run is replayed once it has been closed, and nothing of a run call once it is
/// over.
pub proof fn law_nothing_is_replayed_after_the_end(
    before: EngineView,
    after: EngineView,
    emit: Seq<Arc<Document>>,
    status: Seq<char>,
    reason: Option<Seq<char>>,
    time: Double,
)
    requires
        before.bundler is Some,
        run_closed(before, after, emit, status, reason, time),
    ensures
        rewound(after).replay_queue.len() == 0,
        rewound(ended(before)).replay_queue.len() == 0,
{
    assert(rewound(after).replay_queue =~= Seq::empty());
    assert(rewound(ended(before)).replay_queue =~= Seq::empty());
}

/// A halt leaves every device as it is; the registers of the run call are emptied all the same.
pub proof fn law_halt_skips_the_cleanup(e: EngineView, c: Cleanup)
    requires
        attends(EngineView { control: halted(e.control), ..e }, c),
    ensures
        c.movables@.len() == 0,
        c.flyables@.len() == 0,
        c.staged@.len() == 0,
        cleaned(e).staged.len() == 0,
        cleaned(e).movable_objs_touched == Map::<Seq<char>, ObjView>::empty(),
        cleaned(e).flyable_objs_touched == Map::<Seq<char>, ObjView>::empty(),
{
}

/// A deferred pause takes effect at the next checkpoint, and not before.
pub proof fn law_deferred_pause(e: EngineView, after: EngineView, step: Step, now: Now)
    requires
        !e.control.is_paused,
        e.hooks.checkpoint_hook is None,
        handled(
            EngineView { control: paused(e.control, true), ..e },
            after,
            Msg::Checkpoint,
            step,
            now,
        ),
    ensures
        !paused(e.control, true).is_paused,
        after.control.is_paused,
        !after.control.deferred_pause,
{
}

/// Two runs in a row that neither give nor ask for a scan id get consecutive ids, and their
/// start documents carry them.
pub proof fn law_scan_ids_count_up(
    e0: EngineView,
    e1: EngineView,
    e2: EngineView,
    m1: RunMetadata,
    m2: RunMetadata,
    s1: Step,
    s2: Step,
    t1: Double,
    t2: Double,
)
    requires
        e0.control.scan_id < u64::MAX - 1,
        e0.hooks.scan_id_source is None,
        e0.hooks.md_validator is None,
        e0.hooks.md_normalizer is None,
        m1.scan_id is None,
        m2.scan_id is None,
        opening(e0, e1, s1, m1, t1),
        opening(EngineView { bundler: None, ..e1 }, e2, s2, m2, t2),
    ensures
        (*s1.emit@[0])->Start_0.scan_id == Some((e0.control.scan_id + 1) as u64),
        (*s2.emit@[0])->Start_0.scan_id == Some((e0.control.scan_id + 2) as u64),
{
}

/// Every run that is opened leaves the scan id that follows its own in the persistent metadata. The
/// next run that is numbered by the count gets that id, and its metadata say so, unless the run
/// call or the message gives another value.
pub proof fn law_metadata_holds_the_next_scan_id(
    e0: EngineView,
    e1: EngineView,
    e2: EngineView,
    m1: RunMetadata,
    m2: RunMetadata,
    s1: Step,
    s2: Step,
    t1: Double,
    t2: Double,
)
    requires
        e0.bundler is None,
        e0.control.scan_id < u64::MAX - 1,
        m1.scan_id matches Some(id) ==> id < u64::MAX,
        e0.hooks.scan_id_source is None,
        e0.hooks.md_validator is None,
        e0.hooks.md_normalizer is None,
        opening(e0, e1, s1, m1, t1),
        m2.scan_id is None,
        !e1.per_call_md.dom().contains("scan_id"@),
        !m2.extra@.dom().contains("scan_id"@),
        opening(EngineView { bundler: None, ..e1 }, e2, s2, m2, t2),
    ensures
        ({
            let id = start_in(s1.emit@[0]).scan_id->0;
            &&& s1.next is Done
            &&& e1.md == e0.md.insert("scan_id"@, JsonView::Integer(id + 1))
            &&& start_in(s2.emit@[0]).scan_id == Some((id + 1) as u64)
            &&& start_in(s2.emit@[0]).extra@["scan_id"@] == JsonView::Integer(id + 1)
        }),
{
    reveal_strlit("scan_id");
    reveal_strlit("plan_name");
}

/// A scan id that the message gives is the scan id of the run, and the count goes on from it.
pub proof fn law_given_scan_id_wins(
    e0: EngineView,
    e1: EngineView,
    meta: RunMetadata,
    id: u64,
    step: Step,
    time: Double,
)
    requires
        meta.scan_id == Some(id),
        e0.hooks.md_validator is None,
        e0.hooks.md_normalizer is None,
        opening(e0, e1, step, meta, time),
    ensures
        (*step.emit@[0])->Start_0.scan_id == Some(id),
        e1.control.scan_id == id,
{
}

/// Metadata precedence: the message outranks the run call, which outranks what is persistent;
/// a plan name never replaces a value that is there.
pub proof fn law_metadata_precedence(
    persistent: Map<Seq<char>, JsonView>,
    per_call: Map<Seq<char>, JsonView>,
    extra: Map<Seq<char>, JsonView>,
    plan_name: Option<Seq<char>>,
    k: Seq<char>,
)
    ensures
        ({
            let m = merged_md(persistent, per_call, extra, plan_name);
            &&& extra.dom().contains(k) ==> m.dom().contains(k) && m[k] == extra[k]
            &&& !extra.dom().contains(k) && per_call.dom().contains(k) ==> m.dom().contains(k)
                && m[k] == per_call[k]
            &&& !extra.dom().contains(k) && !per_call.dom().contains(k)
                && persistent.dom().contains(k) ==> m.dom().contains(k) && m[k] == persistent[k]
            &&& !extra.dom().contains(k) && !per_call.dom().contains(k)
                && !persistent.dom().contains(k) && k != "plan_name"@ ==> !m.dom().contains(k)
        }),
{
}

/// The run that is opened is the run that is closed: the stop document names the start
/// document.
pub proof fn law_stop_names_its_start(
    e0: EngineView,
    e1: EngineView,
    e2: EngineView,
    step: Step,
    merged: Map<Seq<char>, JsonView>,
    id: u64,
    status: Seq<char>,
    reason: Option<Seq<char>>,
    emit: Seq<Arc<Document>>,
    t1: Double,
    t2: Double,
)
    requires
        e0.bundler is None,
        run_opened(e0, e1, step, merged, id, t1),
        run_closed(e1, e2, emit, status, reason, t2),
    ensures
        emit.len() == 1,
        (*emit[0])->Stop_0.run_start@ == (*step.emit@[0])->Start_0.uid@,
        e2.bundler is None,
{
}

/// While a run is open, no message but `CloseRun` ends it, and none changes its identity.
pub proof fn law_run_keeps_its_identity(
    before: EngineView,
    after: EngineView,
    msg: Msg,
    step: Step,
    now: Now,
)
    requires
        before.bundler is Some,
        handled(before, after, msg, step, now),
        !(msg is CloseRun),
    ensures
        after.bundler is Some,
        after.bundler->0.bundle.start_uid == before.bundler->0.bundle.start_uid,
{
    match msg {
        Msg::Save => {
            let b = before.bundler->0;
            if b.open is Some && !(b.described(b.open->0.stream_name) is Some
                && !b.bundle.streams.dom().contains(b.open->0.stream_name)) {
                let docs = docs_of(step.emit@);
                if b.described(b.open->0.stream_name) is None {
                    let d = docs[0]->Descriptor_0;
                    let e = docs[1]->Event_0;
                    let mid = choose|mid: BundlerView|
                        {
                            &&& #[trigger] crate::bundler::described_at_save(
                                b.closed_bundle(),
                                mid,
                                b.open->0.stream_name,
                                d,
                                now.time,
                            )
                            &&& crate::bundler::event_saved(
                                mid,
                                after.bundler->0,
                                b.open->0,
                                e,
                                now.time,
                            )
                        };
                    assert(mid.bundle.start_uid == b.bundle.start_uid);
                }
            }
        },
        _ => {},
    }
}

} // verus!
