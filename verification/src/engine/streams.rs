//! How the streams of a run come to be, and what reaches them.

use std::sync::Arc;

use vstd::prelude::*;
use vstd::string::*;

use super::dispatch::handled;
use super::messages::lemma_filtered;
use super::replies::{
    collecting, declared_by, joined, monitoring, other_monitor, read_done, rows_collected, seeding,
    staging_ended, streams_declared, subscription_ended, suspender_taken, unstaging_ended, Row,
};
use super::{Call, EngineView, MonitorView, Next, Now, RunEngine, Step};
use crate::bundler::{described_at_save, event_saved, BundlerView};
use crate::documents::{DataKey, DataKeyView, Document, Dtype, EventDescriptor};
use crate::error::CirrusError;
use crate::msg::{Msg, ObjRef, RunMetadata};
use crate::reading::ReadingValue;
use crate::strmap::StrMap;
use crate::value::{Double, Json, JsonView};

verus! {

/// Whether `d` describes the new stream `name` of the open run, which `after` then knows under it,
/// with no event yet; every other stream is known as before.
pub open spec fn newly_described(
    before: BundlerView,
    after: BundlerView,
    name: Seq<char>,
    d: EventDescriptor,
) -> bool {
    &&& d.run_start@ == before.bundle.start_uid
    &&& d.name matches Some(n) && n@ == name
    &&& after.bundle.streams.dom().contains(name)
    &&& after.bundle.streams[name].descriptor_uid == d.uid@
    &&& after.bundle.streams[name].seq_num == 0
    &&& after.bundle.start_uid == before.bundle.start_uid
    &&& forall|k: Seq<char>|
        k != name ==> (#[trigger] after.bundle.streams.dom().contains(k)
            <==> before.bundle.streams.dom().contains(k)) && after.bundle.streams[k]
            == before.bundle.streams[k]
    &&& after.open == before.open
}

/// A stream that a message declares is described by one descriptor, with the data keys of the
/// message and no other, and is known from then on; without an open run it is refused.
pub proof fn law_declared_stream_is_described(
    before: EngineView,
    after: EngineView,
    stream_name: String,
    data_keys: Arc<StrMap<DataKey>>,
    s: Step,
    now: Now,
)
    requires
        handled(before, after, Msg::DeclareStream { stream_name, data_keys }, s, now),
    ensures
        before.bundler is None ==> s.emit@.len() == 0 && after == before && s.next is Failed,
        before.bundler matches Some(b) ==> {
            &&& s.next == Next::Done(None)
            &&& s.emit@.len() == 1
            &&& match *s.emit@[0] {
                Document::Descriptor(d) => {
                    &&& d.time == now.time
                    &&& forall|k: Seq<char>| #[trigger]
                        d.data_keys@.dom().contains(k) <==> (*data_keys)@.dom().contains(k)
                    &&& forall|k: Seq<char>| #[trigger]
                        d.data_keys@.dom().contains(k) ==> d.data_keys@[k] == (*data_keys)@[k]
                    &&& after.bundler is Some
                    &&& !b.bundle.streams.dom().contains(stream_name@) ==> newly_described(
                        b,
                        after.bundler->0,
                        stream_name@,
                        d,
                    )
                    &&& b.bundle.streams.dom().contains(stream_name@)
                        ==> after.bundler->0.bundle == b.bundle
                },
                _ => false,
            }
        },
{
}

/// A bundle that is created is empty and for the stream that was named; one that is dropped leaves
/// nothing behind, neither a document nor a reading. Two bundles are never open at once, and
/// neither is possible without an open run.
pub proof fn law_bundles_are_created_and_dropped(
    before: EngineView,
    after: EngineView,
    stream_name: String,
    s: Step,
    now: Now,
)
    ensures
        handled(before, after, Msg::Create { stream_name }, s, now) ==> {
            &&& s.emit@.len() == 0
            &&& s.next == Next::Done(None) <==> (before.bundler matches Some(b) && b.open is None)
            &&& s.next == Next::Done(None) ==> (match after.bundler {
                Some(a) => {
                    &&& a.open is Some
                    &&& a.open->0.stream_name == stream_name@
                    &&& a.open->0.readings.dom() =~= Set::empty()
                    &&& a.bundle == before.bundler->0.bundle
                },
                None => false,
            })
            &&& s.next != Next::Done(None) ==> after == before && s.next is Failed
        },
        handled(before, after, Msg::Drop, s, now) ==> {
            &&& s.emit@.len() == 0
            &&& s.next == Next::Done(None) <==> (before.bundler matches Some(b) && b.open is Some)
            &&& s.next == Next::Done(None) ==> (match after.bundler {
                Some(a) => a.open is None && a.bundle == before.bundler->0.bundle,
                None => false,
            })
            &&& s.next != Next::Done(None) ==> after == before && s.next is Failed
        },
        handled(before, after, Msg::Save, s, now) && !(before.bundler matches Some(b)
            && b.open is Some) ==> s.emit@.len() == 0 && after == before && s.next is Failed,
{
}

/// The readings of a device that shows fields are listed under its name in the descriptor: the
/// fields it shows, and as hints the same fields.
pub proof fn law_shown_fields_are_listed(
    before: EngineView,
    read: EngineView,
    after: EngineView,
    obj: ObjRef,
    readings: StrMap<ReadingValue>,
    keys: StrMap<DataKey>,
    fields: Vec<String>,
    s: Step,
    t: Step,
    now: Now,
)
    requires
        before.bundler is Some && before.bundler->0.open is Some,
        before.bundler->0.described(before.bundler->0.open->0.stream_name) is None,
        read_done(before, read, s, obj, readings, keys, Some(fields)),
        handled(read, after, Msg::Save, t, now),
    ensures
        s.next == Next::Done(None),
        t.emit@.len() == 2,
        match *t.emit@[0] {
            Document::Descriptor(d) => {
                &&& d.object_keys@.dom().contains(obj.name@)
                &&& d.object_keys@[obj.name@] == fields.deep_view()
                &&& d.hints matches Some(h) && h@.dom().contains(obj.name@)
                    && h@[obj.name@].fields == Some(fields.deep_view())
            },
            _ => false,
        },
{
    let b = read.bundler->0;
    let docs = super::dispatch::docs_of(t.emit@);
    assert(docs[0] == *t.emit@[0]);
    let d = docs[0]->Descriptor_0;
    let e = docs[1]->Event_0;
    let mid = choose|mid: BundlerView|
        {
            &&& #[trigger] described_at_save(b.closed_bundle(), mid, b.open->0.stream_name, d, now.time)
            &&& event_saved(mid, after.bundler->0, b.open->0, e, now.time)
        };
    assert(described_at_save(b.closed_bundle(), mid, b.open->0.stream_name, d, now.time));
}

/// Whether a stream of the given name is described by one of the documents.
pub open spec fn describes(docs: Seq<Arc<Document>>, name: Seq<char>) -> bool {
    exists|i: int|
        0 <= i < docs.len() && (match *(#[trigger] docs[i]) {
            Document::Descriptor(d) => d.name matches Some(n) && n@ == name,
            _ => false,
        })
}

/// Every stream that a device is going to fill is described before its rows are asked for: by a
/// descriptor now, or by one before. Nothing but descriptors of these streams is emitted, at most
/// one for each, and then the rows of the device are asked for.
pub proof fn law_collected_streams_are_described(
    before: EngineView,
    after: EngineView,
    obj: ObjRef,
    stream_name: Option<String>,
    descs: StrMap<StrMap<DataKey>>,
    s: Step,
    time: Double,
    i: int,
)
    requires
        collecting(before, after, obj, stream_name, Ok(descs), s, time),
        before.bundler matches Some(b) && b.consistent(),
        0 <= i < descs.pairs().len(),
    ensures
        s.next == Next::Call(Call::CollectEvents { obj, stream_name }),
        after.bundler matches Some(a) && a.bundle.streams.dom().contains(descs.pairs()[i].0),
        after.bundler->0.bundle.start_uid == before.bundler->0.bundle.start_uid,
        before.bundler->0.described(descs.pairs()[i].0) is None ==> describes(
            s.emit@,
            descs.pairs()[i].0,
        ),
        s.emit@.len() <= descs.pairs().len(),
        forall|k: int|
            0 <= k < s.emit@.len() ==> (match *(#[trigger] s.emit@[k]) {
                Document::Descriptor(d) => d.time == time && d.run_start@
                    == before.bundler->0.bundle.start_uid && (exists|j: int|
                    0 <= j < descs.pairs().len() && (d.name matches Some(n) && n@
                        == (#[trigger] descs.pairs()[j]).0 && d.data_keys@ == descs.pairs()[j].1)),
                _ => false,
            }),
{
    lemma_streams_declared(
        before.bundler->0,
        after.bundler->0,
        descs.pairs(),
        s.emit@,
        time,
        i,
    );
}

/// What declaring streams one after the other comes to.
proof fn lemma_streams_declared(
    before: BundlerView,
    after: BundlerView,
    streams: Seq<(Seq<char>, Map<Seq<char>, DataKeyView>)>,
    docs: Seq<Arc<Document>>,
    time: Double,
    i: int,
)
    requires
        streams_declared(before, after, streams, docs, time),
        before.consistent(),
    ensures
        after.consistent(),
        after.bundle.start_uid == before.bundle.start_uid,
        forall|k: Seq<char>| #[trigger]
            before.bundle.streams.dom().contains(k) ==> after.bundle.streams.dom().contains(k),
        0 <= i < streams.len() ==> after.bundle.streams.dom().contains(streams[i].0),
        0 <= i < streams.len() && before.described(streams[i].0) is None ==> describes(
            docs,
            streams[i].0,
        ),
        forall|k: Seq<char>|
            before.described(k) is None && #[trigger] after.described(k) is Some ==> describes(
                docs,
                k,
            ),
        docs.len() <= streams.len(),
        forall|k: int|
            0 <= k < docs.len() ==> (match *(#[trigger] docs[k]) {
                Document::Descriptor(d) => d.time == time && d.run_start@ == before.bundle.start_uid
                    && (exists|j: int|
                    0 <= j < streams.len() && (d.name matches Some(n) && n@
                        == (#[trigger] streams[j]).0 && d.data_keys@ == streams[j].1)),
                _ => false,
            }),
    decreases streams.len(),
{
    reveal(crate::compose::is_uid);
    if streams.len() > 0 {
        let (name, keys) = streams.last();
        let rest = streams.drop_last();
        if after.described(name) is Some && streams_declared(before, after, rest, docs, time) {
            lemma_streams_declared(before, after, rest, docs, time, i);
            assert(after.descriptors.dom().contains(name));
            if 0 <= i < rest.len() {
                assert(rest[i] == streams[i]);
            }
            assert forall|k: int| 0 <= k < docs.len() implies (match *(#[trigger] docs[k]) {
                Document::Descriptor(d) => d.time == time && d.run_start@ == before.bundle.start_uid
                    && (exists|j: int|
                    0 <= j < streams.len() && (d.name matches Some(n) && n@
                        == (#[trigger] streams[j]).0 && d.data_keys@ == streams[j].1)),
                _ => false,
            }) by {
                lemma_listed_in_more(rest, streams, *docs[k]);
            }
        } else {
            let mid = choose|mid: BundlerView|
                {
                    &&& #[trigger] declared_by(mid, after, name, keys, *docs.last(), time)
                    &&& streams_declared(before, mid, rest, docs.drop_last(), time)
                };
            let head = docs.drop_last();
            lemma_streams_declared(before, mid, rest, head, time, i);
            let last = docs.len() - 1;
            assert(docs[last] == docs.last());
            assert(describes(docs, name));
            assert forall|k: Seq<char>| describes(head, k) implies describes(docs, k) by {
                let j = choose|j: int|
                    0 <= j < head.len() && (match *(#[trigger] head[j]) {
                        Document::Descriptor(d) => d.name matches Some(n) && n@ == k,
                        _ => false,
                    });
                assert(docs[j] == head[j]);
            }
            if 0 <= i < rest.len() {
                assert(rest[i] == streams[i]);
            }
            assert forall|k: Seq<char>|
                before.described(k) is None && #[trigger] after.described(k) is Some implies describes(
                docs,
                k,
            ) by {
                if k != name {
                    assert(mid.described(k) == after.described(k));
                }
            }
            assert forall|k: int| 0 <= k < docs.len() implies (match *(#[trigger] docs[k]) {
                Document::Descriptor(d) => d.time == time && d.run_start@ == before.bundle.start_uid
                    && (exists|j: int|
                    0 <= j < streams.len() && (d.name matches Some(n) && n@
                        == (#[trigger] streams[j]).0 && d.data_keys@ == streams[j].1)),
                _ => false,
            }) by {
                if k < last {
                    assert(head[k] == docs[k]);
                    lemma_listed_in_more(rest, streams, *docs[k]);
                } else {
                    assert(streams[streams.len() - 1] == (name, keys));
                }
            }
        }
    }
}

/// A descriptor of a stream of a list is one of a stream of a longer list.
proof fn lemma_listed_in_more(
    rest: Seq<(Seq<char>, Map<Seq<char>, DataKeyView>)>,
    streams: Seq<(Seq<char>, Map<Seq<char>, DataKeyView>)>,
    doc: Document,
)
    requires
        streams.len() > 0,
        rest == streams.drop_last(),
        match doc {
            Document::Descriptor(d) => exists|j: int|
                0 <= j < rest.len() && (d.name matches Some(n) && n@ == (#[trigger] rest[j]).0
                    && d.data_keys@ == rest[j].1),
            _ => false,
        },
    ensures
        match doc {
            Document::Descriptor(d) => exists|j: int|
                0 <= j < streams.len() && (d.name matches Some(n) && n@ == (#[trigger] streams[j]).0
                    && d.data_keys@ == streams[j].1),
            _ => false,
        },
{
    let d = doc->Descriptor_0;
    let j = choose|j: int|
        0 <= j < rest.len() && (d.name matches Some(n) && n@ == (#[trigger] rest[j]).0
            && d.data_keys@ == rest[j].1);
    assert(streams[j] == rest[j]);
}

/// A device that is to be monitored gets its stream described with the data keys of the device,
/// once; then it is read for the open run; its first reading becomes an event with the value and
/// the timestamp of each field; and then it is subscribed to.
pub proof fn law_monitor_is_set_up(
    e0: EngineView,
    e1: EngineView,
    e2: EngineView,
    stream: String,
    obj: ObjRef,
    keys: StrMap<DataKey>,
    run_uid: String,
    readings: StrMap<ReadingValue>,
    s: Step,
    t: Step,
    t1: Double,
    t2: Double,
)
    requires
        monitoring(e0, e1, stream, obj, Ok(keys), s, t1),
        e0.bundler matches Some(b) && b.consistent() && b.described(stream@) is None,
        seeding(e1, e2, stream, obj, run_uid, Ok(readings), t, t2),
    ensures
        s.next matches Next::Call(Call::ReadMonitor { stream: n, obj: o, run_uid: u }) && n == stream
            && o == obj && u@ == e0.bundler->0.bundle.start_uid,
        s.emit@.len() == 1,
        match *s.emit@[0] {
            Document::Descriptor(d) => {
                &&& newly_described(e0.bundler->0, e1.bundler->0, stream@, d)
                &&& d.data_keys == keys
                &&& match *t.emit@[0] {
                    Document::Event(e) => {
                        &&& e.descriptor@ == d.uid@
                        &&& e.seq_num == 1
                        &&& forall|k: Seq<char>| #[trigger]
                            e.data@.dom().contains(k) <==> readings@.dom().contains(k)
                        &&& forall|k: Seq<char>| #[trigger]
                            e.data@.dom().contains(k) ==> e.data@[k] == readings@[k].value
                        &&& forall|k: Seq<char>| #[trigger]
                            e.timestamps@.dom().contains(k) <==> readings@.dom().contains(k)
                        &&& forall|k: Seq<char>| #[trigger]
                            e.timestamps@.dom().contains(k) ==> e.timestamps@[k]
                                == readings@[k].timestamp
                    },
                    _ => false,
                }
            },
            _ => false,
        },
        t.emit@.len() == 1,
        t.next == Next::Call(Call::SubscribeMonitor { stream, obj, run_uid }),
{
    let b = e0.bundler->0;
    assert(!b.bundle.streams.dom().contains(stream@)) by {
        if b.bundle.streams.dom().contains(stream@) {
            assert(b.descriptors.dom().contains(stream@));
            assert(b.descriptors[stream@].len() > 0);
        }
    }
}

/// A failed step of setting up a monitor is passed on and changes nothing.
pub proof fn law_failed_monitor_is_passed_on(
    before: EngineView,
    after: EngineView,
    stream: String,
    obj: ObjRef,
    run_uid: String,
    e: CirrusError,
    s: Step,
    out: (Step, bool),
    time: Double,
)
    ensures
        monitoring(before, after, stream, obj, Err(e), s, time) ==> s.next == Next::Failed(e)
            && s.emit@.len() == 0 && after == before,
        seeding(before, after, stream, obj, run_uid, Err(e), s, time) ==> s.next == Next::Failed(e)
            && s.emit@.len() == 0 && after == before,
        subscription_ended(before, after, stream, obj, run_uid, Err(e), out) ==> out.0.next
            == Next::Failed(e) && after == before && !out.1,
        collecting(before, after, obj, Some(stream), Err(e), s, time) ==> s.next == Next::Failed(e)
            && s.emit@.len() == 0 && after == before,
{
}

/// A monitor runs once its device is subscribed to; it takes the place of one for the same stream
/// and device, which is told, and every other monitor runs on.
pub proof fn law_monitor_runs_once(
    before: EngineView,
    after: EngineView,
    stream: String,
    obj: ObjRef,
    run_uid: String,
    out: (Step, bool),
    i: int,
)
    requires
        subscription_ended(before, after, stream, obj, run_uid, Ok(()), out),
    ensures
        out.0.next == Next::Done(None),
        out.0.emit@.len() == 0,
        after.monitor_tasks.len() > 0,
        after.monitor_tasks.last().stream == stream@,
        after.monitor_tasks.last().obj_name == obj.name@,
        after.monitor_tasks.last().run_uid == run_uid@,
        0 <= i < after.monitor_tasks.len() - 1 ==> before.monitor_tasks.contains(
            after.monitor_tasks[i],
        ) && !(after.monitor_tasks[i].stream == stream@ && after.monitor_tasks[i].obj_name
            == obj.name@),
        0 <= i < before.monitor_tasks.len() && !(before.monitor_tasks[i].stream == stream@
            && before.monitor_tasks[i].obj_name == obj.name@) ==> after.monitor_tasks.contains(
            before.monitor_tasks[i],
        ),
        out.1 <==> exists|k: int|
            0 <= k < before.monitor_tasks.len() && (#[trigger] before.monitor_tasks[k]).stream
                == stream@ && before.monitor_tasks[k].obj_name == obj.name@,
        after == (EngineView { monitor_tasks: after.monitor_tasks, ..before }),
{
    let tasks = before.monitor_tasks;
    let keep = other_monitor(stream@, obj.name@);
    lemma_filtered(tasks, keep, tasks.len() as int);
    assert(tasks.take(tasks.len() as int) =~= tasks);
    let kept = tasks.filter(keep);
    if 0 <= i < tasks.len() && keep(tasks[i]) {
        assert(kept.contains(tasks[i]));
        let k = choose|k: int| 0 <= k < kept.len() && kept[k] == tasks[i];
        assert(after.monitor_tasks[k] == tasks[i]);
    }
    if 0 <= i < after.monitor_tasks.len() - 1 {
        assert(after.monitor_tasks[i] == kept[i]);
    }
}

/// A device that is unmonitored feeds no stream any more, and the monitors of other devices run on.
pub proof fn law_unmonitoring_ends_the_monitors_of_a_device(
    before: EngineView,
    after: EngineView,
    obj: ObjRef,
    s: Step,
    now: Now,
    i: int,
)
    requires
        handled(before, after, Msg::Unmonitor(obj), s, now),
    ensures
        0 <= i < after.monitor_tasks.len() ==> after.monitor_tasks[i].obj_name != obj.name@
            && before.monitor_tasks.contains(after.monitor_tasks[i]),
        0 <= i < before.monitor_tasks.len() && before.monitor_tasks[i].obj_name != obj.name@
            ==> after.monitor_tasks.contains(before.monitor_tasks[i]),
        after == (EngineView { monitor_tasks: after.monitor_tasks, ..before }),
{
    let tasks = before.monitor_tasks;
    let keep = |t: MonitorView| t.obj_name != obj.name@;
    lemma_filtered(tasks, keep, tasks.len() as int);
    assert(tasks.take(tasks.len() as int) =~= tasks);
}

/// A suspender is installed once, however often it is reported, and until it is removed; other
/// suspenders stay.
pub proof fn law_suspenders_are_installed_and_removed(
    before: EngineView,
    after: EngineView,
    id: u64,
    watched: bool,
    s: Step,
    now: Now,
    other: u64,
)
    ensures
        suspender_taken(before, after, id, watched, s) ==> {
            &&& watched ==> s.next == Next::Done(None) && after.suspenders.contains(id)
            &&& watched && other != id ==> (after.suspenders.contains(other)
                <==> before.suspenders.contains(other))
            &&& watched && before.suspenders.contains(id) ==> after.suspenders == before.suspenders
            &&& !watched ==> s.next is Failed && after == before
        },
        handled(before, after, Msg::RemoveSuspender { id }, s, now) ==> {
            &&& !after.suspenders.contains(id)
            &&& other != id ==> (after.suspenders.contains(other) <==> before.suspenders.contains(
                other,
            ))
        },
{
    let ids = before.suspenders;
    if suspender_taken(before, after, id, watched, s) && watched && !ids.contains(id) {
        let more = ids.push(id);
        assert(more[ids.len() as int] == id);
        if ids.contains(other) {
            let i = choose|i: int| 0 <= i < ids.len() && ids[i] == other;
            assert(more[i] == other);
        }
        if more.contains(other) && other != id {
            let i = choose|i: int| 0 <= i < more.len() && more[i] == other;
            assert(ids[i] == other);
        }
    }
    if handled(before, after, Msg::RemoveSuspender { id }, s, now) {
        let keep = |t: u64| t != id;
        lemma_filtered(ids, keep, ids.len() as int);
        assert(ids.take(ids.len() as int) =~= ids);
        let kept = ids.filter(keep);
        if kept.contains(id) {
            let i = choose|i: int| 0 <= i < kept.len() && kept[i] == id;
            assert(keep(kept[i]));
        }
        if kept.contains(other) {
            let i = choose|i: int| 0 <= i < kept.len() && kept[i] == other;
            assert(ids.contains(kept[i]));
        }
        if ids.contains(other) && other != id {
            let i = choose|i: int| 0 <= i < ids.len() && ids[i] == other;
            assert(keep(ids[i]));
        }
    }
}

/// A checkpoint starts the record anew and makes what follows rewindable; with a hook it hands over
/// the time and the run that is open. Clearing it ends the record. Whether a region can be rewound
/// can also be said outright. None of them emits a document or ends the run.
pub proof fn law_checkpoints_start_the_record_anew(
    before: EngineView,
    after: EngineView,
    on: bool,
    s: Step,
    now: Now,
)
    ensures
        handled(before, after, Msg::Checkpoint, s, now) ==> {
            &&& after.msg_cache.len() == 0
            &&& after.control.rewindable
            &&& after.replay_queue == before.replay_queue
            &&& after.bundler == before.bundler
            &&& match before.hooks.checkpoint_hook {
                Some(h) => (match s.next {
                    Next::Call(Call::Checkpoint { hook, snapshot }) => {
                        &&& hook == h
                        &&& snapshot.timestamp_ns == now.nanos
                        &&& snapshot.run_uid is Some <==> before.bundler is Some
                        &&& snapshot.run_uid matches Some(u) ==> u@
                            == before.bundler->0.bundle.start_uid
                    },
                    _ => false,
                }) && after.control.is_paused == before.control.is_paused,
                None => s.next == Next::Done(None) && after.control.is_paused == (
                before.control.is_paused || before.control.deferred_pause),
            }
        },
        handled(before, after, Msg::ClearCheckpoint, s, now) ==> {
            &&& s.next == Next::Done(None)
            &&& after.msg_cache.len() == 0
            &&& !after.control.rewindable
            &&& after.bundler == before.bundler
        },
        handled(before, after, Msg::Rewindable(on), s, now) ==> {
            &&& s.next == Next::Done(None)
            &&& after.control.rewindable == on
            &&& after.msg_cache == before.msg_cache
        },
        handled(before, after, Msg::Pause { defer: on }, s, now) ==> {
            &&& s.next == Next::Done(None)
            &&& after.control.is_paused == (before.control.is_paused || !on)
            &&& after.control.deferred_pause == (before.control.deferred_pause || on)
            &&& after.msg_cache == before.msg_cache
        },
        handled(before, after, Msg::Resume, s, now) ==> s.next == Next::Done(None)
            && !after.control.is_paused && after.msg_cache == before.msg_cache,
{
}

/// Before a run is opened its metadata go to the validator and then to the normalizer, where there
/// are any: both see the metadata with the number of the run, and what the normalizer gives is what
/// the run starts with. An error of either is passed on and opens no run.
pub proof fn law_metadata_pass_the_hooks(
    ve: &mut RunEngine,
    ne: &mut RunEngine,
    ce: &mut RunEngine,
    merged: StrMap<Json>,
    id: u64,
    valid: Result<(), CirrusError>,
    normal: Result<StrMap<Json>, CirrusError>,
    chosen: Result<u64, CirrusError>,
    now: Now,
    s: Step,
    t: Step,
    u: Step,
)
    requires
        call_ensures(RunEngine::md_validated, (ve, merged, id, valid, now), s),
        call_ensures(RunEngine::md_normalized, (ne, id, normal, now), t),
        call_ensures(RunEngine::scan_id_chosen, (ce, merged, chosen, now), u),
        old(ve)@.bundler is None && old(ne)@.bundler is None && old(ce)@.bundler is None,
    ensures
        match valid {
            Err(e) => s.next == Next::Failed(e) && s.emit@.len() == 0 && final(ve)@ == old(ve)@,
            Ok(()) => match old(ve)@.hooks.md_normalizer {
                Some(n) => s.emit@.len() == 0 && final(ve)@ == old(ve)@ && (match s.next {
                    Next::Call(Call::Normalize { normalizer, merged: m, scan_id }) => normalizer
                        == n && m@ == merged@ && scan_id == id,
                    _ => false,
                }),
                None => starts_with(s, merged@, id, now.time) && final(ve)@.bundler is Some,
            },
        },
        match normal {
            Err(e) => t.next == Next::Failed(e) && t.emit@.len() == 0 && final(ne)@ == old(ne)@,
            Ok(m) => starts_with(t, m@, id, now.time) && final(ne)@.bundler is Some,
        },
        match chosen {
            Err(e) => u.next == Next::Failed(e) && u.emit@.len() == 0 && final(ce)@ == old(ce)@,
            Ok(n) => match (old(ce)@.hooks.md_validator, old(ce)@.hooks.md_normalizer) {
                (Some(v), _) => u.emit@.len() == 0 && (match u.next {
                    Next::Call(Call::Validate { validator, merged: m, scan_id }) => validator == v
                        && scan_id == n && numbered(merged@, m@, n),
                    _ => false,
                }),
                (None, Some(_)) => u.emit@.len() == 0 && (match u.next {
                    Next::Call(Call::Normalize { merged: m, scan_id, .. }) => scan_id == n
                        && numbered(merged@, m@, n),
                    _ => false,
                }),
                (None, None) => exists|m: Map<Seq<char>, JsonView>| #[trigger]
                    numbered(merged@, m, n) && starts_with(u, m, n, now.time),
            },
        },
{
    if let Ok(n) = chosen {
        assert(numbered(merged@, super::run::with_scan_id(merged@, n), n));
    }
}

/// Whether `m` is `merged` with the number of the run under `scan_id`, unless something stands
/// there.
pub open spec fn numbered(
    merged: Map<Seq<char>, JsonView>,
    m: Map<Seq<char>, JsonView>,
    id: u64,
) -> bool {
    &&& forall|k: Seq<char>| #[trigger]
        merged.dom().contains(k) ==> m.dom().contains(k) && m[k] == merged[k]
    &&& forall|k: Seq<char>| #[trigger]
        m.dom().contains(k) && k != "scan_id"@ ==> merged.dom().contains(k)
    &&& m.dom().contains("scan_id"@)
    &&& !merged.dom().contains("scan_id"@) ==> m["scan_id"@] == JsonView::Integer(id as int)
}

/// Whether a step begins with the start document of a run of this number, with these metadata.
pub open spec fn starts_with(
    s: Step,
    merged: Map<Seq<char>, JsonView>,
    id: u64,
    time: Double,
) -> bool {
    &&& s.emit@.len() >= 1
    &&& match *s.emit@[0] {
        Document::Start(d) => d.scan_id == Some(id) && d.time == time && d.extra@ == merged,
        _ => false,
    }
    &&& s.next is Done
}

/// A request to open a run that gives no number asks the source of numbers, where there is one,
/// with the metadata of the run; with a number of its own it does not ask. The validator, where
/// there is one, is asked before any document is emitted.
pub proof fn law_opening_asks_the_hooks(
    before: EngineView,
    after: EngineView,
    meta: Arc<RunMetadata>,
    s: Step,
    now: Now,
)
    requires
        handled(before, after, Msg::OpenRun(meta), s, now),
        before.control.scan_id < u64::MAX,
    ensures
        match (meta.scan_id, before.hooks.scan_id_source) {
            (None, Some(src)) => s.emit@.len() == 0 && after == before && (match s.next {
                Next::Call(Call::ScanIdSource { source, merged }) => source == src && (forall|
                    k: Seq<char>,
                | #[trigger]
                    meta.extra@.dom().contains(k) ==> merged@.dom().contains(k) && merged@[k]
                        == meta.extra@[k]),
                _ => false,
            }),
            (given, _) => {
                let id = match given {
                    Some(id) => id as int,
                    None => before.control.scan_id + 1,
                };
                &&& after.control.scan_id == id || before.bundler is Some
                &&& before.hooks.md_validator matches Some(v) ==> s.emit@.len() == 0 && (
                match s.next {
                    Next::Call(Call::Validate { validator, scan_id, .. }) => validator == v
                        && scan_id == id,
                    _ => false,
                })
                &&& before.hooks.md_validator is None ==> (before.hooks.md_normalizer matches Some(n)
                    ==> s.emit@.len() == 0 && (match s.next {
                    Next::Call(Call::Normalize { normalizer, scan_id, .. }) => normalizer == n
                        && scan_id == id,
                    _ => false,
                }))
            },
        },
{
}

/// A run is not opened while another one is open.
pub proof fn law_one_run_at_a_time(
    before: EngineView,
    after: EngineView,
    meta: Arc<RunMetadata>,
    s: Step,
    now: Now,
)
    requires
        handled(before, after, Msg::OpenRun(meta), s, now),
        before.bundler is Some,
        before.control.scan_id < u64::MAX,
    ensures
        after.bundler == before.bundler,
        !(s.next is Done),
        after.md == before.md,
{
}

/// A message changes only what it is about. The messages about the data of a run change the open run
/// alone; those for a device at most put it on record; the persistent metadata change with the
/// opening of a run alone; and the hooks, the commands, the staged devices and the metadata of the
/// call never change.
pub proof fn law_messages_leave_the_rest_alone(
    before: EngineView,
    after: EngineView,
    msg: Msg,
    s: Step,
    now: Now,
)
    requires
        handled(before, after, msg, s, now),
    ensures
        after.hooks == before.hooks,
        after.commands == before.commands,
        after.staged == before.staged,
        after.per_call_md == before.per_call_md,
        after.preprocessors == before.preprocessors,
        after.staged_temp_subs == before.staged_temp_subs,
        !(msg is OpenRun) ==> after.md == before.md && after.control.scan_id
            == before.control.scan_id,
        !(msg is Wait) ==> after.groups == before.groups,
        !(msg is Subscribe || msg is Unsubscribe) ==> after.subscribers == before.subscribers,
        !(msg is Monitor || msg is Unmonitor) ==> after.monitor_tasks == before.monitor_tasks,
        !(msg is OpenRun || msg is CloseRun || msg is Create || msg is Save || msg is Drop
            || msg is DeclareStream) ==> after.bundler == before.bundler,
        !(msg is CloseRun) ==> after.retired == before.retired && after.replay_queue
            == before.replay_queue,
        msg is Create || msg is Save || msg is Drop || msg is DeclareStream ==> after == (EngineView {
            bundler: after.bundler,
            ..before
        }),
        after.control.is_running == before.control.is_running,
        after.control.is_aborting == before.control.is_aborting,
        after.control.is_halting == before.control.is_halting,
        after.control.cancelled == before.control.cancelled,
        after.control.record_interruptions == before.control.record_interruptions,
{
}

/// A reply changes only what it is about: readings, collections and monitors the open run, a status
/// its group, a staging the staged devices.
pub proof fn law_replies_leave_the_rest_alone(
    before: EngineView,
    after: EngineView,
    s: Step,
    obj: ObjRef,
    readings: StrMap<ReadingValue>,
    keys: StrMap<DataKey>,
    hints: Option<Vec<String>>,
    stream: String,
    name: Option<String>,
    descs: Result<StrMap<StrMap<DataKey>>, CirrusError>,
    described: Result<StrMap<DataKey>, CirrusError>,
    seed: Result<StrMap<ReadingValue>, CirrusError>,
    rows: Seq<Row>,
    status: u64,
    group: Option<String>,
    r: Result<(), CirrusError>,
    run_uid: String,
    time: Double,
)
    ensures
        read_done(before, after, s, obj, readings, keys, hints) ==> after == (EngineView {
            bundler: after.bundler,
            last_msg_result: after.last_msg_result,
            ..before
        }),
        collecting(before, after, obj, name, descs, s, time) ==> after == (EngineView {
            bundler: after.bundler,
            ..before
        }),
        monitoring(before, after, stream, obj, described, s, time) ==> after == (EngineView {
            bundler: after.bundler,
            ..before
        }),
        seeding(before, after, stream, obj, run_uid, seed, s, time) ==> after == (EngineView {
            bundler: after.bundler,
            ..before
        }),
        rows_collected(before, after, rows, name, s, time) ==> after == (EngineView {
            bundler: after.bundler,
            ..before
        }),
        joined(before, after, status, group, s) ==> after == (EngineView {
            groups: after.groups,
            last_msg_result: after.last_msg_result,
            ..before
        }),
        staging_ended(before, after, obj, r, s) ==> after == (EngineView {
            staged: after.staged,
            ..before
        }),
        unstaging_ended(before, after, obj, r, s) ==> after == (EngineView {
            staged: after.staged,
            ..before
        }),
{
}

/// A run that is opened emits its start document, and where interruptions are recorded the descriptor
/// of their stream, with one text field; and nothing else.
pub proof fn law_opening_emits_the_start(
    before: EngineView,
    after: EngineView,
    meta: Arc<RunMetadata>,
    s: Step,
    now: Now,
)
    requires
        handled(before, after, Msg::OpenRun(meta), s, now),
        s.next is Done,
        before.control.scan_id < u64::MAX,
    ensures
        *s.emit@[0] is Start,
        !before.control.record_interruptions ==> s.emit@.len() == 1,
        before.control.record_interruptions ==> s.emit@.len() == 2 && (match *s.emit@[1] {
            Document::Descriptor(d) => {
                &&& d.name matches Some(n) && n@ == "interruptions"@
                &&& forall|k: Seq<char>| #[trigger]
                    d.data_keys@.dom().contains(k) <==> k == "interruption"@
                &&& d.data_keys@["interruption"@].dtype == Dtype::String
                &&& after.bundler is Some
                &&& after.bundler->0.bundle.streams.dom().contains("interruptions"@)
            },
            _ => false,
        }),
{
}

/// Every message can be handled, but for a number that has run out: that of a run which none was
/// given for, of an event, or of a subscription.
pub proof fn law_messages_can_be_handled(re: &RunEngine, msg: Msg, yes: bool)
    requires
        call_ensures(RunEngine::can_handle, (re, &msg), yes),
    ensures
        !(msg is OpenRun || msg is Save || msg is Subscribe) ==> yes,
        msg is Subscribe ==> (yes <==> re@.control.sub_counter < u64::MAX),
        msg is OpenRun && re@.control.scan_id < u64::MAX ==> yes,
        msg matches Msg::OpenRun(meta) ==> (meta.scan_id is Some ==> yes),
        msg is Save ==> (yes <==> re@.room(1)),
{
}

} // verus!
