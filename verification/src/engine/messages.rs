//! What the messages of a plan are for, from the message to what comes of it.

use std::sync::Arc;

use vstd::prelude::*;

use super::control::has_other_id;
use super::dispatch::{docs_of, handled, lemma_filter_next};
use super::lifecycle::{attends, cleaned, Cleanup};
use super::replay::{
    fetched, gate_entered, gate_left, interruption_recorded, lists_values, Fetch, PauseActions,
};
use super::replies::{
    counted, factories_told, input_taken, joined, lemma_counted, located, member_step,
    monitor_ticked, read_done, row_stream, rows_collected, staging_ended, unstaging_ended,
    wait_timed_out, GroupNext, GroupWait, Row, WaitEnd,
};
use super::{Call, EngineView, MonitorView, MsgResultView, Next, Now, Step};
use crate::bundler::{described_at_save, event_saved, saved, BundlerView};
use crate::compose::{event_counts, is_uid, BundleView};
use crate::documents::{DataKey, DataKeyView, Document, Event};
use crate::error::{CirrusError, Span};
use crate::msg::{Msg, ObjRef, ObjView, RunMetadata};
use crate::reading::{ReadingValue, ReadingView};
use crate::status::StatusError;
use crate::strmap::{distinct_keys, lemma_map_of, map_of, StrMap};
use crate::value::{Double, JsonView};

verus! {

/// The statuses that a course of the engine issues into one wait group, in order. Where no status
/// is issued into the group, there is `None`.
pub open spec fn issued(steps: Seq<Option<u64>>) -> Seq<u64>
    decreases steps.len(),
{
    if steps.len() == 0 {
        seq![]
    } else {
        match steps.last() {
            Some(status) => issued(steps.drop_last()).push(status),
            None => issued(steps.drop_last()),
        }
    }
}

/// Whether nothing is to be awaited for a wait group.
pub open spec fn nothing_waits(e: EngineView, group: Seq<char>) -> bool {
    !e.groups.dom().contains(group) || e.groups[group].len() == 0
}

/// Whether a status is issued into a wait group.
pub open spec fn issues(before: EngineView, after: EngineView, status: u64, group: String) -> bool {
    exists|s: Step| #[trigger] joined(before, after, status, Some(group), s)
}

/// Whether the engine goes from `es[0]` through `es`: each step issues the status that it names
/// into the group, or leaves the group as it is.
pub open spec fn group_course(es: Seq<EngineView>, steps: Seq<Option<u64>>, group: String) -> bool {
    &&& es.len() == steps.len() + 1
    &&& forall|i: int|
        0 <= i < steps.len() ==> match #[trigger] steps[i] {
            Some(status) => issues(es[i], es[i + 1], status, group),
            None => {
                &&& es[i + 1].groups.dom().contains(group@) == es[i].groups.dom().contains(group@)
                &&& es[i + 1].groups[group@] == es[i].groups[group@]
            },
        }
}

proof fn lemma_group_course(es: Seq<EngineView>, steps: Seq<Option<u64>>, group: String, n: int)
    requires
        group_course(es, steps, group),
        nothing_waits(es[0], group@),
        0 <= n <= steps.len(),
    ensures
        issued(steps.take(n)).len() == 0 ==> nothing_waits(es[n], group@),
        issued(steps.take(n)).len() > 0 ==> es[n].groups.dom().contains(group@)
            && es[n].groups[group@] == issued(steps.take(n)),
    decreases n,
{
    if n > 0 {
        lemma_group_course(es, steps, group, n - 1);
        let before = steps.take(n - 1);
        assert(steps.take(n).drop_last() =~= before);
        match steps[n - 1] {
            Some(status) => {
                assert(issues(es[n - 1], es[n - 1 + 1], status, group));
                assert(es[n].groups[group@] =~= issued(before).push(status));
            },
            None => {},
        }
    }
}

/// A wait for a group awaits every status that was issued into it since it was waited for last:
/// each exactly once, in the order in which they were issued, with the flag and the limit of the
/// message. Where none was issued, there is nothing to await. Afterwards the group is empty.
pub proof fn law_wait_awaits_every_issued_status(
    es: Seq<EngineView>,
    steps: Seq<Option<u64>>,
    after: EngineView,
    group: String,
    error_on_timeout: bool,
    timeout: Option<Span>,
    s: Step,
    now: Now,
)
    requires
        nothing_waits(es[0], group@),
        group_course(es, steps, group),
        handled(es.last(), after, Msg::Wait { group, error_on_timeout, timeout }, s, now),
    ensures
        s.emit@.len() == 0,
        issued(steps).len() == 0 ==> s.next == Next::Done(None),
        issued(steps).len() > 0 ==> match s.next {
            Next::Call(Call::AwaitGroup { members, error_on_timeout: e, timeout: t }) => members@
                == issued(steps) && e == error_on_timeout && t == timeout,
            _ => false,
        },
        nothing_waits(after, group@),
{
    lemma_group_course(es, steps, group, steps.len() as int);
    assert(steps.take(steps.len() as int) =~= steps);
}

/// A status joins the group that it was issued into and no other; without a group it is awaited at
/// once. Only a wait empties a group, and only its own: no other message touches any.
pub proof fn law_groups_are_kept_apart(
    before: EngineView,
    after: EngineView,
    status: u64,
    group: Option<String>,
    msg: Msg,
    s: Step,
    now: Now,
    other: Seq<char>,
)
    requires
        group matches Some(g) ==> g@ != other,
        msg matches Msg::Wait { group: g, .. } ==> g@ != other,
    ensures
        joined(before, after, status, group, s) || handled(before, after, msg, s, now) ==> {
            &&& after.groups.dom().contains(other) == before.groups.dom().contains(other)
            &&& before.groups.dom().contains(other) ==> after.groups[other]
                == before.groups[other]
        },
        joined(before, after, status, None, s) ==> after == before && s.emit@.len() == 0 && s.next
            == Next::Call(Call::AwaitStatus { status }),
        joined(before, after, status, group, s) && group is Some ==> s.emit@.len() == 0 && s.next
            == Next::Done(None),
{
}

/// Where failures count, a wait for a group ends well only after every status of the group was
/// awaited and succeeded, and a status that fails ends the wait in its failure. The wait goes
/// through `ws`, is told of `rs`, of which the first is its beginning, and answers with `ns`, of
/// which the one at `i` is the first that ends it.
pub proof fn law_wait_ends_as_its_statuses_do(
    ws: Seq<GroupWait>,
    rs: Seq<Result<(), StatusError>>,
    ns: Seq<GroupNext>,
    i: int,
)
    requires
        ws.len() == rs.len() + 1,
        ns.len() == rs.len(),
        ws[0].awaited == 0,
        ws[0].error_on_timeout,
        0 <= i < rs.len(),
        rs[0] is Ok,
        forall|j: int| 0 <= j < rs.len() ==> member_step(ws[j], ws[j + 1], #[trigger] rs[j], ns[j]),
        ns[i] is Over,
        forall|j: int| 0 <= j < i ==> (#[trigger] ns[j]) is Await,
    ensures
        i <= ws[0].members@.len(),
        forall|j: int| 0 <= j < i ==> #[trigger] ns[j] == GroupNext::Await(ws[0].members@[j]),
        forall|j: int| 0 <= j < i ==> (#[trigger] rs[j]) is Ok,
        match ns[i] {
            GroupNext::Over(Ok(())) => rs[i] is Ok && i == ws[0].members@.len(),
            GroupNext::Over(Err(e)) => match rs[i] {
                Err(StatusError::Cancelled) => e is Cancelled,
                Err(StatusError::Failed(m)) => e == CirrusError::Backend(m),
                Err(StatusError::Timeout) => e is Timeout,
                Ok(()) => false,
            },
            GroupNext::Await(_) => false,
        },
{
    lemma_awaited(ws, rs, ns, i);
    assert(member_step(ws[i], ws[i + 1], rs[i], ns[i]));
}

proof fn lemma_awaited(
    ws: Seq<GroupWait>,
    rs: Seq<Result<(), StatusError>>,
    ns: Seq<GroupNext>,
    i: int,
)
    requires
        ws.len() == rs.len() + 1,
        ns.len() == rs.len(),
        ws[0].awaited == 0,
        ws[0].error_on_timeout,
        0 <= i <= rs.len(),
        forall|j: int| 0 <= j < rs.len() ==> member_step(ws[j], ws[j + 1], #[trigger] rs[j], ns[j]),
        forall|j: int| 0 <= j < i ==> (#[trigger] ns[j]) is Await,
    ensures
        ws[i].members == ws[0].members,
        ws[i].error_on_timeout,
        ws[i].awaited == i,
        i <= ws[0].members@.len(),
        forall|j: int| 0 <= j < i ==> #[trigger] ns[j] == GroupNext::Await(ws[0].members@[j]),
        forall|j: int| 0 <= j < i ==> (#[trigger] rs[j]) is Ok,
    decreases i,
{
    if i > 0 {
        lemma_awaited(ws, rs, ns, i - 1);
        assert(member_step(ws[i - 1], ws[i - 1 + 1], rs[i - 1], ns[i - 1]));
        assert(ns[i - 1] is Await);
    }
}

/// What the latest of the maps that hold `k` holds there.
pub open spec fn latest<V>(ms: Seq<Map<Seq<char>, V>>, k: Seq<char>) -> Option<V>
    decreases ms.len(),
{
    if ms.len() == 0 {
        None
    } else if ms.last().dom().contains(k) {
        Some(ms.last()[k])
    } else {
        latest(ms.drop_last(), k)
    }
}

/// The readings of several devices.
pub open spec fn all_readings(rs: Seq<StrMap<ReadingValue>>) -> Seq<Map<Seq<char>, ReadingView>> {
    Seq::new(rs.len(), |i: int| rs[i]@)
}

/// The descriptions of several devices.
pub open spec fn all_keys(ks: Seq<StrMap<DataKey>>) -> Seq<Map<Seq<char>, DataKeyView>> {
    Seq::new(ks.len(), |i: int| ks[i]@)
}

/// Whether the engine goes from `es[0]` through `es`, and is given in each step the reading and
/// the description of one device.
pub open spec fn reading_course(
    es: Seq<EngineView>,
    objs: Seq<ObjRef>,
    rs: Seq<StrMap<ReadingValue>>,
    ks: Seq<StrMap<DataKey>>,
    hints: Seq<Option<Vec<String>>>,
) -> bool {
    &&& es.len() == rs.len() + 1
    &&& objs.len() == rs.len()
    &&& ks.len() == rs.len()
    &&& hints.len() == rs.len()
    &&& forall|i: int|
        0 <= i < rs.len() ==> reads(es[i], es[i + 1], #[trigger] objs[i], rs[i], ks[i], hints[i])
}

/// Whether the engine takes the reading and the description of a device.
pub open spec fn reads(
    before: EngineView,
    after: EngineView,
    obj: ObjRef,
    readings: StrMap<ReadingValue>,
    keys: StrMap<DataKey>,
    hints: Option<Vec<String>>,
) -> bool {
    exists|s: Step| #[trigger] read_done(before, after, s, obj, readings, keys, hints)
}

proof fn lemma_reading_course(
    es: Seq<EngineView>,
    objs: Seq<ObjRef>,
    rs: Seq<StrMap<ReadingValue>>,
    ks: Seq<StrMap<DataKey>>,
    hints: Seq<Option<Vec<String>>>,
    n: int,
)
    requires
        reading_course(es, objs, rs, ks, hints),
        es[0].bundler matches Some(b) && b.open matches Some(o) && o.readings
            == Map::<Seq<char>, ReadingView>::empty(),
        0 <= n <= rs.len(),
    ensures
        es[n].bundler is Some,
        es[n].bundler->0.open is Some,
        ({
            let b0 = es[0].bundler->0;
            let b = es[n].bundler->0;
            let stream = b0.open->0.stream_name;
            let keys = b.keys_of(stream);
            &&& b.open->0.stream_name == stream
            &&& b.bundle == b0.bundle
            &&& b.descriptors == b0.descriptors
            &&& b.pending_config == b0.pending_config
            &&& forall|k: Seq<char>| #[trigger]
                b.open->0.readings.dom().contains(k) <==> latest(
                    all_readings(rs).take(n),
                    k,
                ) is Some
            &&& forall|k: Seq<char>| #[trigger]
                b.open->0.readings.dom().contains(k) ==> latest(all_readings(rs).take(n), k)
                    == Some(b.open->0.readings[k])
            &&& forall|k: Seq<char>| #[trigger]
                keys.dom().contains(k) <==> b0.keys_of(stream).dom().contains(k) || latest(
                    all_keys(ks).take(n),
                    k,
                ) is Some
            &&& forall|k: Seq<char>| #[trigger]
                keys.dom().contains(k) ==> keys[k] == match latest(all_keys(ks).take(n), k) {
                    Some(key) => key,
                    None => b0.keys_of(stream)[k],
                }
        }),
    decreases n,
{
    if n > 0 {
        lemma_reading_course(es, objs, rs, ks, hints, n - 1);
        let i = n - 1;
        assert(reads(es[i], es[i + 1], objs[i], rs[i], ks[i], hints[i]));
        assert(all_readings(rs).take(n).drop_last() =~= all_readings(rs).take(i));
        assert(all_keys(ks).take(n).drop_last() =~= all_keys(ks).take(i));
        assert(all_readings(rs).take(n).last() == rs[i]@);
        assert(all_keys(ks).take(n).last() == ks[i]@);
    }
}

/// The event of a save holds what was read since the create, and nothing else: under each key the
/// value and the timestamp of the latest reading that has the key. The event refers to the
/// descriptor of the stream that the create named. Where the stream was not described yet, its
/// descriptor comes first and holds the latest description of every key of every device that was
/// read.
pub proof fn law_event_holds_every_reading(
    idle: EngineView,
    es: Seq<EngineView>,
    after: EngineView,
    stream: String,
    objs: Seq<ObjRef>,
    rs: Seq<StrMap<ReadingValue>>,
    ks: Seq<StrMap<DataKey>>,
    hints: Seq<Option<Vec<String>>>,
    opened: Step,
    s: Step,
    now: Now,
)
    requires
        idle.bundler matches Some(b) && b.open is None && b.consistent(),
        handled(idle, es[0], Msg::Create { stream_name: stream }, opened, now),
        reading_course(es, objs, rs, ks, hints),
        handled(es.last(), after, Msg::Save, s, now),
    ensures
        s.next == Next::Done(None),
        s.emit@.len() == 1 || s.emit@.len() == 2,
        s.emit@.len() == 1 <==> idle.bundler->0.descriptors.dom().contains(stream@),
        match *s.emit@.last() {
            Document::Event(e) => {
                &&& e.time == now.time
                &&& forall|k: Seq<char>| #[trigger]
                    e.data@.dom().contains(k) <==> latest(all_readings(rs), k) is Some
                &&& forall|k: Seq<char>| #[trigger]
                    e.data@.dom().contains(k) ==> e.data@[k] == latest(
                        all_readings(rs),
                        k,
                    )->0.value
                &&& forall|k: Seq<char>| #[trigger]
                    e.timestamps@.dom().contains(k) <==> latest(all_readings(rs), k) is Some
                &&& forall|k: Seq<char>| #[trigger]
                    e.timestamps@.dom().contains(k) ==> e.timestamps@[k] == latest(
                        all_readings(rs),
                        k,
                    )->0.timestamp
                &&& s.emit@.len() == 2 ==> match *s.emit@[0] {
                    Document::Descriptor(d) => {
                        &&& d.name matches Some(n) && n@ == stream@
                        &&& d.time == now.time
                        &&& d.run_start@ == idle.bundler->0.bundle.start_uid
                        &&& e.descriptor@ == d.uid@
                        &&& e.seq_num == 1
                        &&& forall|k: Seq<char>|
                            (#[trigger] latest(all_keys(ks), k)) is Some
                                ==> d.data_keys@.dom().contains(k) && d.data_keys@[k] == latest(
                                all_keys(ks),
                                k,
                            )->0
                        &&& forall|k: Seq<char>| #[trigger]
                            d.data_keys@.dom().contains(k) ==> latest(all_keys(ks), k) is Some
                                || idle.bundler->0.keys_of(stream@).dom().contains(k)
                    },
                    _ => false,
                }
                &&& s.emit@.len() == 1 ==> {
                    let known = idle.bundler->0.bundle.streams[stream@];
                    e.descriptor@ == known.descriptor_uid && e.seq_num == known.seq_num + 1
                }
            },
            _ => false,
        },
        after.bundler is Some,
        after.bundler->0.open is None,
{
    let b0 = idle.bundler->0;
    assert(es[0].bundler->0.open->0.stream_name == stream@);
    lemma_reading_course(es, objs, rs, ks, hints, rs.len() as int);
    assert(all_readings(rs).take(rs.len() as int) =~= all_readings(rs));
    assert(all_keys(ks).take(rs.len() as int) =~= all_keys(ks));
    let b = es.last().bundler->0;
    let docs = docs_of(s.emit@);
    assert(saved(b, after.bundler->0, docs, now.time));
    let open = b.open->0;
    reveal(is_uid);
    if b.described(open.stream_name) is Some {
        assert(docs[0] == *s.emit@[0]);
        let e = docs[0]->Event_0;
        assert(event_saved(b.closed_bundle(), after.bundler->0, open, e, now.time));
        assert(e.data@.dom() =~= open.readings.dom());
        assert(e.timestamps@.dom() =~= open.readings.dom());
    } else {
        assert(docs[0] == *s.emit@[0]);
        assert(docs[1] == *s.emit@[1]);
        let d = docs[0]->Descriptor_0;
        let e = docs[1]->Event_0;
        let mid = choose|mid: BundlerView|
            {
                &&& #[trigger] described_at_save(
                    b.closed_bundle(),
                    mid,
                    open.stream_name,
                    d,
                    now.time,
                )
                &&& event_saved(mid, after.bundler->0, open, e, now.time)
            };
        assert(e.data@.dom() =~= open.readings.dom());
        assert(e.timestamps@.dom() =~= open.readings.dom());
        assert(b.closed_bundle().keys_of(open.stream_name) == b.keys_of(open.stream_name));
        assert forall|k: Seq<char>| (#[trigger] latest(all_keys(ks), k)) is Some implies
            d.data_keys@.dom().contains(k) && d.data_keys@[k] == latest(all_keys(ks), k)->0 by {
            assert(b.keys_of(open.stream_name).dom().contains(k));
        }
    }
}

/// Two devices read into one bundle, both in the event of the save: every key of the second with
/// its value, every other key of the first with its own, and no other key.
pub proof fn law_event_holds_both_readings(
    r1: StrMap<ReadingValue>,
    r2: StrMap<ReadingValue>,
    b: BundlerView,
    after: BundlerView,
    k1: Map<Seq<char>, DataKeyView>,
    k2: Map<Seq<char>, DataKeyView>,
    o1: Option<Seq<char>>,
    o2: Option<Seq<char>>,
    h1: Option<Seq<Seq<char>>>,
    h2: Option<Seq<Seq<char>>>,
    docs: Seq<Document>,
    time: Double,
)
    requires
        b.open matches Some(o) && o.readings == Map::<Seq<char>, ReadingView>::empty(),
        saved(b.with_readings(r1@, k1, o1, h1).with_readings(r2@, k2, o2, h2), after, docs, time),
    ensures
        docs.len() > 0,
        match docs.last() {
            Document::Event(e) => forall|k: Seq<char>|
                {
                    &&& (#[trigger] e.data@.dom().contains(k)) == (r1@.dom().contains(k)
                        || r2@.dom().contains(k))
                    &&& e.timestamps@.dom().contains(k) == e.data@.dom().contains(k)
                    &&& r2@.dom().contains(k) ==> e.data@[k] == r2@[k].value && e.timestamps@[k]
                        == r2@[k].timestamp
                    &&& r1@.dom().contains(k) && !r2@.dom().contains(k) ==> e.data@[k]
                        == r1@[k].value && e.timestamps@[k] == r1@[k].timestamp
                },
            _ => false,
        },
        docs.len() == 2 && b.keys_of(b.open->0.stream_name) == Map::<
            Seq<char>,
            DataKeyView,
        >::empty() && r1@.dom() == k1.dom() && r2@.dom() == k2.dom() ==> match (
            docs[0],
            docs[1],
        ) {
            (Document::Descriptor(d), Document::Event(e)) => d.data_keys@.dom() == e.data@.dom(),
            _ => false,
        },
{
    let b2 = b.with_readings(r1@, k1, o1, h1).with_readings(r2@, k2, o2, h2);
    let open = b2.open->0;
    let e = docs.last()->Event_0;
    assert(e.data@.dom() =~= open.readings.dom());
    assert(e.timestamps@.dom() =~= open.readings.dom());
    if docs.len() == 2 {
        let d = docs[0]->Descriptor_0;
        if b.keys_of(b.open->0.stream_name) == Map::<Seq<char>, DataKeyView>::empty() && r1@.dom()
            == k1.dom() && r2@.dom() == k2.dom() {
            assert(d.data_keys@ == b2.closed_bundle().keys_of(open.stream_name));
            assert(d.data_keys@.dom() =~= e.data@.dom());
        }
    }
}

/// How many of the first `n` rows go to a stream.
pub open spec fn rows_before(
    rows: Seq<Row>,
    stream_name: Option<String>,
    stream: Seq<char>,
    n: int,
) -> int
    decreases n,
{
    if n <= 0 {
        0
    } else {
        let here = match stream_name {
            Some(s) => s@ == stream,
            None => rows[n - 1].0@ == stream,
        };
        rows_before(rows, stream_name, stream, n - 1) + if here {
            1int
        } else {
            0int
        }
    }
}

proof fn lemma_rows_before(
    b: BundleView,
    rows: Seq<Row>,
    stream_name: Option<String>,
    stream: Seq<char>,
    n: int,
)
    requires
        0 <= n <= rows.len(),
        b.streams.dom().contains(stream),
        forall|i: int|
            0 <= i < n ==> b.streams.dom().contains(row_stream(#[trigger] rows[i], stream_name)),
    ensures
        counted(b, rows, stream_name, n).streams.dom().contains(stream),
        counted(b, rows, stream_name, n).streams[stream].seq_num == b.streams[stream].seq_num
            + rows_before(rows, stream_name, stream, n),
        counted(b, rows, stream_name, n).streams[stream].descriptor_uid
            == b.streams[stream].descriptor_uid,
    decreases n,
{
    if n > 0 {
        lemma_rows_before(b, rows, stream_name, stream, n - 1);
    }
}

/// Where every row goes to a declared stream, collecting rows emits one event for each, in order:
/// event `i` holds the values and the timestamps of row `i`, key by key. It refers to the
/// descriptor of its stream, which is the one that the collection names or else the row's own, and
/// its number follows those of the events of that stream before it. The collection then is done.
pub proof fn law_rows_become_events(
    before: EngineView,
    after: EngineView,
    rows: Seq<Row>,
    stream_name: Option<String>,
    s: Step,
    time: Double,
)
    requires
        rows_collected(before, after, rows, stream_name, s, time),
        before.bundler is Some,
        forall|i: int|
            0 <= i < rows.len() ==> before.bundler->0.bundle.streams.dom().contains(
                match stream_name {
                    Some(n) => n@,
                    None => (#[trigger] rows[i]).0@,
                },
            ),
    ensures
        s.next == Next::Done(None),
        s.emit@.len() == rows.len(),
        forall|i: int|
            0 <= i < rows.len() ==> match *(#[trigger] s.emit@[i]) {
                Document::Event(e) => {
                    let stream = match stream_name {
                        Some(n) => n@,
                        None => rows[i].0@,
                    };
                    let known = before.bundler->0.bundle.streams[stream];
                    &&& e.time == time
                    &&& e.descriptor@ == known.descriptor_uid
                    &&& e.seq_num == known.seq_num + 1 + rows_before(rows, stream_name, stream, i)
                    &&& forall|k: Seq<char>| #[trigger]
                        e.data@.dom().contains(k) <==> rows[i].1@.dom().contains(k)
                    &&& forall|k: Seq<char>| #[trigger]
                        e.data@.dom().contains(k) ==> e.data@[k] == rows[i].1@[k]
                    &&& forall|k: Seq<char>| #[trigger]
                        e.timestamps@.dom().contains(k) <==> rows[i].2@.dom().contains(k)
                    &&& forall|k: Seq<char>| #[trigger]
                        e.timestamps@.dom().contains(k) ==> e.timestamps@[k] == rows[i].2@[k]
                },
                _ => false,
            },
{
    let b = before.bundler->0.bundle;
    let n = s.emit@.len() as int;
    assert forall|i: int| 0 <= i < rows.len() implies b.streams.dom().contains(
        row_stream(#[trigger] rows[i], stream_name),
    ) by {}
    assert(n == rows.len()) by {
        if n < rows.len() {
            assert(b.streams.dom().contains(row_stream(rows[n], stream_name)));
        }
    }
    assert forall|i: int| 0 <= i < rows.len() implies match *(#[trigger] s.emit@[i]) {
        Document::Event(e) => {
            let stream = row_stream(rows[i], stream_name);
            &&& e.descriptor@ == b.streams[stream].descriptor_uid
            &&& e.seq_num == b.streams[stream].seq_num + 1 + rows_before(
                rows,
                stream_name,
                stream,
                i,
            )
        },
        _ => false,
    } by {
        lemma_rows_before(b, rows, stream_name, row_stream(rows[i], stream_name), i);
    }
}

/// A row whose stream was not declared ends the collection in an error; the rows before it have
/// become events. Rows that come when no run is open are refused, and none becomes an event.
pub proof fn law_undeclared_row_ends_the_collection(
    before: EngineView,
    after: EngineView,
    rows: Seq<Row>,
    stream_name: Option<String>,
    s: Step,
    time: Double,
    i: int,
)
    requires
        rows_collected(before, after, rows, stream_name, s, time),
        0 <= i < rows.len(),
        before.bundler matches Some(b) ==> !b.bundle.streams.dom().contains(
            match stream_name {
                Some(n) => n@,
                None => rows[i].0@,
            },
        ),
        before.bundler matches Some(b) ==> forall|j: int|
            0 <= j < i ==> b.bundle.streams.dom().contains(
                match stream_name {
                    Some(n) => n@,
                    None => (#[trigger] rows[j]).0@,
                },
            ),
    ensures
        s.next matches Next::Failed(e) && e is Plan,
        before.bundler is Some ==> s.emit@.len() == i,
        before.bundler is None ==> s.emit@.len() == 0 && after == before,
{
    if before.bundler is Some {
        let b = before.bundler->0.bundle;
        let n = s.emit@.len() as int;
        if n > i {
            assert forall|j: int| 0 <= j < i implies b.streams.dom().contains(
                row_stream(#[trigger] rows[j], stream_name),
            ) by {}
            lemma_counted(b, rows, stream_name, i);
            assert(match *s.emit@[i] {
                Document::Event(e) => true,
                _ => false,
            });
        } else if n < i {
            assert(b.streams.dom().contains(row_stream(rows[n], stream_name)));
        }
    }
}

/// The event of a monitor update holds the value and the timestamp of the update under the name of
/// the device, and nothing else, and goes to the stream of the monitor.
pub proof fn law_monitor_event_holds_the_update(
    before: EngineView,
    after: EngineView,
    task: MonitorView,
    value: JsonView,
    stamp: Double,
    time: Double,
    doc: Option<Event>,
)
    requires
        monitor_ticked(before, after, task, value, stamp, time, doc),
    ensures
        doc is Some <==> before.monitor_tasks.contains(task) && ({
            ||| before.bundler matches Some(b) && b.bundle.start_uid == task.run_uid
                && b.bundle.streams.dom().contains(task.stream)
            ||| !(before.bundler matches Some(b) && b.bundle.start_uid == task.run_uid)
                && before.retired.dom().contains(task.run_uid)
                && before.retired[task.run_uid].streams.dom().contains(task.stream)
        }),
        doc matches Some(e) ==> {
            &&& e.time == time
            &&& forall|k: Seq<char>| #[trigger] e.data@.dom().contains(k) <==> k == task.obj_name
            &&& e.data@[task.obj_name] == value
            &&& forall|k: Seq<char>| #[trigger]
                e.timestamps@.dom().contains(k) <==> k == task.obj_name
            &&& e.timestamps@[task.obj_name] == stamp
            &&& match before.bundler {
                Some(b) if b.bundle.start_uid == task.run_uid => {
                    &&& e.descriptor@ == b.bundle.streams[task.stream].descriptor_uid
                    &&& e.seq_num == b.bundle.streams[task.stream].seq_num + 1
                    &&& after.bundler matches Some(a) && a.bundle.streams[task.stream].seq_num
                        == e.seq_num
                },
                _ => {
                    let r = before.retired[task.run_uid];
                    &&& e.descriptor@ == r.streams[task.stream].descriptor_uid
                    &&& e.seq_num == r.streams[task.stream].seq_num + 1
                    &&& after.retired[task.run_uid].streams[task.stream].seq_num == e.seq_num
                },
            }
        },
        doc is None ==> after == before,
{
}

/// A message for a device leads to one call, for that device and with what the message gives, and
/// emits nothing.
pub proof fn law_messages_reach_their_devices(
    before: EngineView,
    after: EngineView,
    msg: Msg,
    s: Step,
    now: Now,
)
    requires
        handled(before, after, msg, s, now),
    ensures
        match msg {
            Msg::Read(obj) => s.next == Next::Call(Call::Read { obj }),
            Msg::Locate(obj) => s.next == Next::Call(Call::Locate { obj }),
            Msg::SetValue { obj, value, group } => s.next == Next::Call(
                Call::Move { obj, value, group },
            ),
            Msg::Trigger { obj, group } => s.next == Next::Call(Call::Trigger { obj, group }),
            Msg::Stage(obj) => s.next == Next::Call(Call::Stage { obj }),
            Msg::Unstage(obj) => s.next == Next::Call(Call::Unstage { obj }),
            Msg::Stop { obj, success } => s.next == Next::Call(Call::Stop { obj, success }),
            Msg::Kickoff { obj, group } => s.next == Next::Call(Call::Kickoff { obj, group }),
            Msg::Complete { obj, group } => s.next == Next::Call(Call::Complete { obj, group }),
            Msg::Collect { obj, stream_name } => s.next == Next::Call(
                Call::DescribeCollect { obj, stream_name },
            ),
            Msg::Monitor { obj, name } => match s.next {
                Next::Call(Call::DescribeMonitor { stream, obj: o }) => o == obj && match name {
                    Some(n) => stream@ == n@,
                    None => stream@ == obj.name@,
                },
                _ => false,
            },
            Msg::Configure { obj, args } => s.next == Next::Call(Call::Configure { obj, args }),
            Msg::Prepare { obj, value, group } => s.next == Next::Call(
                Call::Prepare { obj, value, group },
            ),
            Msg::Sleep(span) => s.next == Next::Call(Call::Sleep { span }),
            Msg::WaitFor { factories, timeout } => s.next == Next::Call(
                Call::WaitFor { factories, timeout },
            ),
            Msg::InstallSuspender { id, suspender } => s.next == Next::Call(
                Call::InstallSuspender { id, suspender },
            ),
            Msg::Input { prompt } => match before.hooks.input_handler {
                Some(handler) => s.next == Next::Call(Call::Input { handler, prompt }),
                None => s.next matches Next::Failed(e) && e is Plan,
            },
            Msg::Custom { name, payload } => if before.commands.dom().contains(name@) {
                s.next == Next::Call(Call::Custom { handler: before.commands[name@], payload })
            } else {
                s.next matches Next::Failed(e) && e is Plan
            },
            _ => true,
        },
        match msg {
            Msg::OpenRun(_) | Msg::CloseRun { .. } | Msg::Save | Msg::DeclareStream { .. } => true,
            Msg::Publish(doc) => s.emit@.len() == 1 && s.emit@[0] == doc && s.next == Next::Done(
                None,
            ) && after == before,
            _ => s.emit@.len() == 0,
        },
        msg matches Msg::Fail(reason) ==> s.next == Next::Failed(CirrusError::Plan(reason)),
        msg is Null ==> s.next == Next::Done(None) && after == before,
{
}

/// A device that a message moves or kicks off is on record for the end of the run call, and no
/// message takes one off the record. A device that is registered as pausable is, until it is
/// unregistered.
pub proof fn law_touched_devices_are_on_record(
    before: EngineView,
    after: EngineView,
    msg: Msg,
    s: Step,
    now: Now,
    k: Seq<char>,
)
    requires
        handled(before, after, msg, s, now),
    ensures
        msg matches Msg::SetValue { obj, .. } ==> after.movable_objs_touched.dom().contains(
            obj.name@,
        ) && after.movable_objs_touched[obj.name@] == obj.deep_view(),
        msg matches Msg::Kickoff { obj, .. } ==> after.flyable_objs_touched.dom().contains(
            obj.name@,
        ) && after.flyable_objs_touched[obj.name@] == obj.deep_view(),
        msg matches Msg::RegisterPausable(obj) ==> after.pausables.dom().contains(obj.name@)
            && after.pausables[obj.name@] == obj.deep_view(),
        msg matches Msg::UnregisterPausable(obj) ==> !after.pausables.dom().contains(obj.name@),
        before.movable_objs_touched.dom().contains(k)
            ==> after.movable_objs_touched.dom().contains(k),
        before.flyable_objs_touched.dom().contains(k)
            ==> after.flyable_objs_touched.dom().contains(k),
        before.pausables.dom().contains(k) && !(msg matches Msg::UnregisterPausable(obj)
            && obj.name@ == k) ==> after.pausables.dom().contains(k),
        after.staged == before.staged,
{
}

/// Whether `v` names the devices on the record `m`: each of them, and no other.
pub open spec fn names_all(v: Seq<ObjRef>, m: Map<Seq<char>, ObjView>) -> bool {
    &&& forall|k: Seq<char>| #[trigger]
        m.dom().contains(k) ==> exists|i: int|
            0 <= i < v.len() && (#[trigger] v[i]).deep_view() == m[k]
    &&& forall|i: int|
        0 <= i < v.len() ==> exists|k: Seq<char>| #[trigger]
            m.dom().contains(k) && m[k] == (#[trigger] v[i]).deep_view()
}

/// After a run call, every device that was moved or kicked off is stopped, and every staged one is
/// unstaged in the order of staging; after a halt none is. Afterwards nothing is on record.
pub proof fn law_cleanup_attends_to_every_device(before: EngineView, c: Cleanup)
    requires
        attends(before, c),
    ensures
        before.control.is_halting ==> c.movables@.len() == 0 && c.flyables@.len() == 0
            && c.staged@.len() == 0,
        !before.control.is_halting ==> c.staged@ == before.staged && names_all(
            c.movables@,
            before.movable_objs_touched,
        ) && names_all(c.flyables@, before.flyable_objs_touched),
        cleaned(before).staged.len() == 0,
        forall|k: Seq<char>| !(#[trigger] cleaned(before).movable_objs_touched.dom().contains(k)),
        forall|k: Seq<char>| !(#[trigger] cleaned(before).flyable_objs_touched.dom().contains(k)),
        forall|k: Seq<char>| !(#[trigger] cleaned(before).pausables.dom().contains(k)),
        cleaned(before).monitor_tasks.len() == 0,
        cleaned(before).suspenders.len() == 0,
        cleaned(before).groups == before.groups,
        cleaned(before).md == before.md,
{
    if !before.control.is_halting {
        lemma_listed(c.movables@, before.movable_objs_touched);
        lemma_listed(c.flyables@, before.flyable_objs_touched);
    }
}

/// A listing of devices names each of them.
proof fn lemma_listed(v: Seq<ObjRef>, m: Map<Seq<char>, ObjView>)
    requires
        lists_values(v, m),
    ensures
        names_all(v, m),
{
    let pairs = choose|pairs: Seq<(Seq<char>, ObjView)>|
        {
            &&& #[trigger] distinct_keys(pairs)
            &&& map_of(pairs) == m
            &&& v.len() == pairs.len()
            &&& forall|i: int| 0 <= i < v.len() ==> (#[trigger] v[i]).deep_view() == pairs[i].1
        };
    lemma_map_of(pairs);
    assert forall|k: Seq<char>| #[trigger] m.dom().contains(k) implies exists|i: int|
        0 <= i < v.len() && (#[trigger] v[i]).deep_view() == m[k] by {
        let i = choose|i: int| 0 <= i < pairs.len() && (#[trigger] pairs[i]).0 == k;
        assert(v[i].deep_view() == m[k]);
    }
    assert forall|i: int| 0 <= i < v.len() implies exists|k: Seq<char>|
        m.dom().contains(k) && m[k] == (#[trigger] v[i]).deep_view() by {
        assert(m.dom().contains(pairs[i].0));
    }
}

/// At the pause gate every device that was moved or kicked off is stopped, every pausable one is
/// paused, and no monitor runs on; when it is left, every pausable one is resumed, and what was
/// recorded is delivered again, in order and before anything else.
pub proof fn law_pause_gate_attends_to_every_device(
    before: EngineView,
    at_gate: EngineView,
    after: EngineView,
    actions: PauseActions,
    resumed: Seq<ObjRef>,
    f: Fetch,
    next: EngineView,
)
    requires
        gate_entered(before, at_gate, actions),
        gate_left(at_gate, after, resumed),
    ensures
        names_all(actions.movables@, before.movable_objs_touched),
        names_all(actions.flyables@, before.flyable_objs_touched),
        names_all(actions.pausables@, before.pausables),
        names_all(resumed, before.pausables),
        at_gate.monitor_tasks.len() == 0,
        after.bundler == before.bundler,
        after.groups == before.groups,
        after.replay_queue == before.msg_cache + before.replay_queue,
        after.msg_cache.len() == 0,
        fetched(after, next, f) && !after.control.is_aborting && !after.control.is_paused && (
        before.msg_cache.len() + before.replay_queue.len() > 0) ==> f == Fetch::Replay(
            if before.msg_cache.len() > 0 {
                before.msg_cache[0]
            } else {
                before.replay_queue[0]
            },
        ),
{
    lemma_listed(actions.movables@, before.movable_objs_touched);
    lemma_listed(actions.flyables@, before.flyable_objs_touched);
    lemma_listed(actions.pausables@, before.pausables);
    lemma_listed(resumed, before.pausables);
}

/// An interruption that is recorded is an event of the stream `interruptions` that holds its text
/// and its time, and nothing else. It is recorded where recording is on and the open run declared
/// the stream.
pub proof fn law_interruption_holds_its_text(
    before: EngineView,
    after: EngineView,
    content: Seq<char>,
    time: Double,
    doc: Option<Arc<Document>>,
)
    requires
        interruption_recorded(before, after, content, time, doc),
        before.bundler matches Some(b) ==> b.consistent(),
    ensures
        doc is Some <==> before.control.record_interruptions && (before.bundler matches Some(b)
            && b.bundle.streams.dom().contains("interruptions"@)),
        doc matches Some(d) ==> match *d {
            Document::Event(e) => {
                let known = before.bundler->0.bundle.streams["interruptions"@];
                &&& forall|k: Seq<char>| #[trigger]
                    e.data@.dom().contains(k) <==> k == "interruption"@
                &&& e.data@["interruption"@] == JsonView::Str(content)
                &&& forall|k: Seq<char>| #[trigger]
                    e.timestamps@.dom().contains(k) <==> k == "interruption"@
                &&& e.timestamps@["interruption"@] == time
                &&& e.time == time
                &&& e.descriptor@ == known.descriptor_uid
                &&& e.seq_num == known.seq_num + 1
                &&& after.bundler matches Some(a) && a.bundle.streams["interruptions"@].seq_num
                    == e.seq_num && a.open == before.bundler->0.open
            },
            _ => false,
        },
        after == (EngineView { bundler: after.bundler, ..before }),
        doc is None ==> after == before,
{
}

/// What a call came to is told as it came: a location is its setpoint and its readback, a line is
/// its text, and an error is passed on as it is.
pub proof fn law_replies_are_passed_on(
    before: EngineView,
    after: EngineView,
    place: Result<(Double, Double), CirrusError>,
    line: Result<String, CirrusError>,
    end: WaitEnd,
    strict: bool,
    limit: Span,
    s: Step,
)
    ensures
        located(before, after, place, s) ==> s.emit@.len() == 0 && match place {
            Ok((setpoint, readback)) => s.next == Next::Done(None) && after.last_msg_result
                == MsgResultView::Location { setpoint, readback },
            Err(e) => s.next == Next::Failed(e) && after == before,
        },
        input_taken(before, after, line, s) ==> s.emit@.len() == 0 && match line {
            Ok(text) => s.next == Next::Done(None) && after.last_msg_result
                == MsgResultView::Input { text: text@ },
            Err(e) => s.next == Next::Failed(e) && after == before,
        },
        factories_told(end, s) ==> s.emit@.len() == 0 && s.next == match end {
            WaitEnd::Finished(Ok(())) => Next::Done(None),
            WaitEnd::Finished(Err(e)) => Next::Failed(e),
            WaitEnd::TimedOut(t) => Next::Failed(CirrusError::Timeout(t)),
            WaitEnd::Cancelled => Next::Failed(CirrusError::Cancelled),
        },
        wait_timed_out(strict, limit, s) ==> s.emit@.len() == 0 && s.next == if strict {
            Next::Failed(CirrusError::Timeout(limit))
        } else {
            Next::Done(None)
        },
{
}

/// A device is staged from a staging that succeeds, after those that were staged before it, until
/// an unstaging of it that succeeds; other devices stay staged, in their order. What fails changes
/// nothing.
pub proof fn law_staging_is_undone_by_unstaging(
    before: EngineView,
    after: EngineView,
    obj: ObjRef,
    r: Result<(), CirrusError>,
    s: Step,
)
    ensures
        staging_ended(before, after, obj, r, s) ==> match r {
            Ok(()) => s.next == Next::Done(None) && after.staged == before.staged.push(obj),
            Err(e) => s.next == Next::Failed(e) && after == before,
        },
        unstaging_ended(before, after, obj, r, s) ==> match r {
            Ok(()) => {
                &&& s.next == Next::Done(None)
                &&& forall|i: int|
                    0 <= i < after.staged.len() ==> (#[trigger] after.staged[i]).id != obj.id
                        && before.staged.contains(after.staged[i])
                &&& forall|i: int|
                    0 <= i < before.staged.len() && (#[trigger] before.staged[i]).id != obj.id
                        ==> after.staged.contains(before.staged[i])
            },
            Err(e) => s.next == Next::Failed(e) && after == before,
        },
{
    if unstaging_ended(before, after, obj, r, s) && r is Ok {
        let keep = |o: ObjRef| o.id != obj.id;
        lemma_filtered(before.staged, keep, before.staged.len() as int);
        assert(before.staged.take(before.staged.len() as int) =~= before.staged);
    }
}

/// Filtering keeps exactly what it is to keep.
pub(super) proof fn lemma_filtered<T>(all: Seq<T>, keep: spec_fn(T) -> bool, n: int)
    requires
        0 <= n <= all.len(),
    ensures
        forall|i: int|
            0 <= i < all.take(n).filter(keep).len() ==> keep(#[trigger] all.take(n).filter(keep)[i])
                && all.contains(all.take(n).filter(keep)[i]),
        forall|i: int|
            0 <= i < n && keep(#[trigger] all[i]) ==> all.take(n).filter(keep).contains(all[i]),
    decreases n,
{
    reveal(Seq::filter);
    if n > 0 {
        lemma_filtered(all, keep, n - 1);
        lemma_filter_next(all, n - 1, keep);
        let g = all.take(n - 1).filter(keep);
        let f = all.take(n).filter(keep);
        assert forall|i: int| 0 <= i < f.len() implies keep(#[trigger] f[i]) && all.contains(
            f[i],
        ) by {
            if i < g.len() {
                assert(f[i] == g[i]);
            } else {
                assert(f[i] == all[n - 1]);
            }
        }
        assert forall|i: int| 0 <= i < n && keep(#[trigger] all[i]) implies f.contains(all[i]) by {
            if i < n - 1 {
                assert(g.contains(all[i]));
                let k = choose|k: int| 0 <= k < g.len() && g[k] == all[i];
                assert(f[k] == all[i]);
            } else {
                assert(f[g.len() as int] == all[i]);
            }
        }
    }
}

/// A subscription by a message calls its own callback under a new id, after the callbacks that were
/// subscribed before, and is a temporary one; an end of it removes that id and no other.
pub proof fn law_subscription_messages(
    before: EngineView,
    after: EngineView,
    callback: u64,
    id: u64,
    s: Step,
    now: Now,
)
    ensures
        handled(before, after, Msg::Subscribe(callback), s, now) && before.control.sub_counter
            < u64::MAX ==> {
            let new = before.control.sub_counter + 1;
            &&& after.subscribers.len() == before.subscribers.len() + 1
            &&& after.subscribers.drop_last() == before.subscribers
            &&& after.subscribers.last().0 == new
            &&& after.subscribers.last().1 == callback
            &&& after.control.sub_counter == new
            &&& after.temp_subscribers.contains(after.subscribers.last().0)
            &&& after.last_msg_result == MsgResultView::SubscriptionId {
                id: after.subscribers.last().0,
            }
        },
        handled(before, after, Msg::Unsubscribe(id), s, now) ==> {
            &&& forall|i: int|
                0 <= i < after.subscribers.len() ==> (#[trigger] after.subscribers[i]).0 != id
                    && before.subscribers.contains(after.subscribers[i])
            &&& forall|i: int|
                0 <= i < before.subscribers.len() && (#[trigger] before.subscribers[i]).0 != id
                    ==> after.subscribers.contains(before.subscribers[i])
        },
{
    if handled(before, after, Msg::Subscribe(callback), s, now) && before.control.sub_counter
        < u64::MAX {
        assert(after.subscribers.drop_last() =~= before.subscribers);
        assert(after.temp_subscribers[before.temp_subscribers.len() as int]
            == after.subscribers.last().0);
    }
    if handled(before, after, Msg::Unsubscribe(id), s, now) {
        lemma_filtered(before.subscribers, has_other_id(id), before.subscribers.len() as int);
        assert(before.subscribers.take(before.subscribers.len() as int) =~= before.subscribers);
    }
}

/// A run that is opened starts with a document that holds its metadata: under each key what the
/// message gives, or else what the run call gives, or else what is persistent; the name of the plan
/// where nothing else stands under `plan_name`; and the number of the run where nothing else stands
/// under `scan_id`. Nothing else is in it. The number is the one that the message gives, or the
/// next one.
pub proof fn law_start_document_holds_the_metadata(
    before: EngineView,
    after: EngineView,
    meta: Arc<RunMetadata>,
    s: Step,
    now: Now,
    k: Seq<char>,
)
    requires
        handled(before, after, Msg::OpenRun(meta), s, now),
        before.bundler is None,
        before.hooks.scan_id_source is None,
        before.hooks.md_validator is None,
        before.hooks.md_normalizer is None,
        before.control.scan_id < u64::MAX,
    ensures
        s.emit@.len() >= 1,
        match *s.emit@[0] {
            Document::Start(d) => {
                &&& d.time == now.time
                &&& match meta.scan_id {
                    Some(id) => d.scan_id == Some(id),
                    None => d.scan_id == Some((before.control.scan_id + 1) as u64),
                }
                &&& meta.extra@.dom().contains(k) ==> d.extra@.dom().contains(k) && d.extra@[k]
                    == meta.extra@[k]
                &&& !meta.extra@.dom().contains(k) && before.per_call_md.dom().contains(k)
                    ==> d.extra@.dom().contains(k) && d.extra@[k] == before.per_call_md[k]
                &&& !meta.extra@.dom().contains(k) && !before.per_call_md.dom().contains(k)
                    && before.md.dom().contains(k) ==> d.extra@.dom().contains(k) && d.extra@[k]
                    == before.md[k]
                &&& !meta.extra@.dom().contains(k) && !before.per_call_md.dom().contains(k)
                    && !before.md.dom().contains(k) ==> {
                    &&& k == "plan_name"@ ==> match meta.plan_name {
                        Some(n) => d.extra@.dom().contains(k) && d.extra@[k] == JsonView::Str(n@),
                        None => !d.extra@.dom().contains(k),
                    }
                    &&& k == "scan_id"@ ==> d.extra@.dom().contains(k) && d.extra@[k]
                        == JsonView::Integer(d.scan_id->0 as int)
                    &&& k != "plan_name"@ && k != "scan_id"@ ==> !d.extra@.dom().contains(k)
                }
                &&& s.next matches Next::Done(Some(u)) && u@ == d.uid@
                &&& after.bundler matches Some(b) && b.bundle.start_uid == d.uid@ && b.open is None
                &&& after.last_msg_result == MsgResultView::OpenRun { uid: d.uid@ }
            },
            _ => false,
        },
{
    reveal_strlit("scan_id");
    reveal_strlit("plan_name");
    assert("scan_id"@.len() == 7);
    assert("plan_name"@.len() == 9);
}

/// The stop document of a run names its start, says how and why it ended as the message does, and
/// counts the events of each stream of the run.
pub proof fn law_stop_document_counts_the_events(
    before: EngineView,
    after: EngineView,
    exit_status: String,
    reason: Option<String>,
    s: Step,
    now: Now,
)
    requires
        handled(before, after, Msg::CloseRun { exit_status, reason }, s, now),
        before.bundler is Some,
        before.room(0),
    ensures
        s.next == Next::Done(None),
        s.emit@.len() == 1,
        after.bundler is None,
        after.last_msg_result == (MsgResultView::CloseRun { exit_status: exit_status@ }),
        match *s.emit@[0] {
            Document::Stop(d) => {
                let b = before.bundler->0.bundle;
                &&& d.run_start@ == b.start_uid
                &&& d.time == now.time
                &&& d.exit_status@ == exit_status@
                &&& match (d.reason, reason) {
                    (Some(x), Some(y)) => x@ == y@,
                    (None, None) => true,
                    _ => false,
                }
                &&& forall|k: Seq<char>| #[trigger]
                    d.num_events@.dom().contains(k) <==> b.streams.dom().contains(k)
                &&& forall|k: Seq<char>| #[trigger]
                    d.num_events@.dom().contains(k) ==> d.num_events@[k] == b.streams[k].seq_num
            },
            _ => false,
        },
{
    let b = before.bundler->0.bundle;
    let docs = docs_of(s.emit@);
    assert(docs[0] == *s.emit@[0]);
    let d = docs[0]->Stop_0;
    assert(d.num_events@ == event_counts(b));
    assert forall|k: Seq<char>| #[trigger] d.num_events@.dom().contains(k) implies
        d.num_events@[k] == b.streams[k].seq_num by {
        assert(b.streams.dom().contains(k));
    }
}

} // verus!
