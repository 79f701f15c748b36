//! The whole of a run call: what its options hold for, and for how long.

use std::sync::Arc;

use vstd::prelude::*;

use super::control::{aborted, halted, has_other_id, paused, stopped, without_id};
use super::dispatch::{admits, docs_of, handled, lemma_filter_next, with_bundler, with_result};
use super::laws::{ids_in_order, lemma_filtered_in_order, merged_for, sound, start_in};
use super::lifecycle::{
    begun, cleaned, ended, loop_finished, next_ids, options_staged,
};
use super::replay::{fetched, interruption_recorded, recorded, rewound, Fetch};
use super::replies::{
    declared_by, monitor_added, monitor_seeded, read_done, rows_collected, streams_declared, Row,
};
use super::run::{normalizing, validating, with_scan_id};
use super::{
    Call, Control, EngineView, MonitorView, Next, Now, RunOptions, RunResult, Step,
};
use crate::bundler::BundlerView;
use crate::documents::{DataKey, DataKeyView, Document};
use crate::error::CirrusError;
use crate::msg::{Msg, ObjRef};
use crate::reading::{ReadingValue, ReadingView};
use crate::strmap::StrMap;
use crate::value::{Double, JsonView};

verus! {

/// What happens to the engine in the course of a run call, one thing after the other.
pub enum Happening {
    /// A message is processed.
    Handled {
        /// The message.
        msg: Msg,
        /// The answer.
        step: Step,
        /// The moment.
        now: Now,
    },
    /// The scan id source gives an id.
    Numbered {
        /// The metadata that it was asked about.
        merged: Map<Seq<char>, JsonView>,
        /// The id.
        id: u64,
        /// The answer.
        step: Step,
        /// The moment.
        time: Double,
    },
    /// The validator accepts the metadata.
    Validated {
        /// The metadata that it was asked about.
        merged: Map<Seq<char>, JsonView>,
        /// The scan id of the run.
        id: u64,
        /// The answer.
        step: Step,
        /// The moment.
        time: Double,
    },
    /// A callback is subscribed from outside.
    Subscribed(u64),
    /// A subscription is ended from outside.
    Unsubscribed(u64),
    /// Anything else: a request from outside, the delivery of a message, the reply to another call.
    Aside(Seq<Arc<Document>>),
}

/// The documents that come of it.
pub open spec fn documents_of(h: Happening) -> Seq<Arc<Document>> {
    match h {
        Happening::Handled { step, .. } => step.emit@,
        Happening::Numbered { step, .. } => step.emit@,
        Happening::Validated { step, .. } => step.emit@,
        Happening::Aside(emit) => emit,
        _ => seq![],
    }
}

/// Whether the host is asked about the metadata `merged`.
pub open spec fn asks_about(h: Happening, merged: Map<Seq<char>, JsonView>) -> bool {
    let next = match h {
        Happening::Handled { step, .. } => step.next,
        Happening::Numbered { step, .. } => step.next,
        Happening::Validated { step, .. } => step.next,
        _ => Next::Done(None),
    };
    match next {
        Next::Call(Call::ScanIdSource { merged: m, .. }) => m@ == merged,
        Next::Call(Call::Validate { merged: m, .. }) => m@ == merged,
        _ => false,
    }
}

/// Whether the options of the run call and the subscriptions are left as they are.
pub open spec fn aside(a: EngineView, b: EngineView) -> bool {
    &&& b.per_call_md == a.per_call_md
    &&& b.subscribers == a.subscribers
    &&& b.temp_subscribers == a.temp_subscribers
    &&& b.control.sub_counter == a.control.sub_counter
}

/// Whether no start document is among `docs`.
pub open spec fn no_start(docs: Seq<Arc<Document>>) -> bool {
    forall|i: int| 0 <= i < docs.len() ==> !(*(#[trigger] docs[i]) is Start)
}

/// Whether `h` takes the engine from `a` to `b`.
pub open spec fn happens(a: EngineView, b: EngineView, h: Happening) -> bool {
    match h {
        Happening::Handled { msg, step, now } => admits(a, msg) && handled(a, b, msg, step, now),
        Happening::Numbered { merged, id, step, time } => validating(
            a,
            b,
            step,
            with_scan_id(merged, id),
            id,
            time,
        ),
        Happening::Validated { merged, id, step, time } => normalizing(
            a,
            b,
            step,
            merged,
            id,
            time,
        ),
        Happening::Subscribed(cb) => {
            let id = (a.control.sub_counter + 1) as u64;
            &&& a.control.sub_counter < u64::MAX
            &&& b == EngineView {
                control: Control { sub_counter: id, ..a.control },
                subscribers: a.subscribers.push((id, cb)),
                ..a
            }
        },
        Happening::Unsubscribed(id) => b == EngineView {
            subscribers: without_id(a.subscribers, id),
            ..a
        },
        Happening::Aside(emit) => aside(a, b) && no_start(emit),
    }
}

/// Whether the source or the validator answers for metadata that the host was asked about before.
pub open spec fn answers_for_what_was_asked(hs: Seq<Happening>, i: int) -> bool {
    match hs[i] {
        Happening::Numbered { merged, .. } => exists|j: int|
            0 <= j < i && asks_about(#[trigger] hs[j], merged),
        Happening::Validated { merged, .. } => exists|j: int|
            0 <= j < i && asks_about(#[trigger] hs[j], merged),
        _ => true,
    }
}

/// Whether the engine goes through `es` by what happens in `hs`.
pub open spec fn course(es: Seq<EngineView>, hs: Seq<Happening>) -> bool {
    &&& es.len() == hs.len() + 1
    &&& forall|i: int|
        0 <= i < hs.len() ==> happens(es[i], es[i + 1], #[trigger] hs[i])
            && answers_for_what_was_asked(hs, i)
}

/// Whether nothing normalizes metadata in the course of `es`, and no message of `hs` opens a run
/// with a value of its own under `k`.
pub open spec fn leaves_key(es: Seq<EngineView>, hs: Seq<Happening>, k: Seq<char>) -> bool {
    &&& forall|i: int| 0 <= i < es.len() ==> (#[trigger] es[i]).hooks.md_normalizer is None
    &&& forall|i: int|
        0 <= i < hs.len() ==> match #[trigger] hs[i] {
            Happening::Handled { msg: Msg::OpenRun(meta), .. } => !meta.extra@.dom().contains(k),
            _ => true,
        }
}

/// Whether `m` has the value `v` under `k`.
pub open spec fn has(m: Map<Seq<char>, JsonView>, k: Seq<char>, v: JsonView) -> bool {
    m.dom().contains(k) && m[k] == v
}

/// Whether a document is published as it is by the message.
pub open spec fn publishes(h: Happening) -> bool {
    h matches Happening::Handled { msg, .. } && msg is Publish
}

/// The start documents that come of `h`, which publishes none, have what `ok` asks for, and so
/// have the metadata that the host is asked about.
pub open spec fn starts_are(h: Happening, ok: spec_fn(Map<Seq<char>, JsonView>) -> bool) -> bool {
    &&& forall|d: int|
        0 <= d < documents_of(h).len() && *(#[trigger] documents_of(h)[d]) is Start ==> ok(
            start_in(documents_of(h)[d]).extra@,
        )
    &&& forall|m: Map<Seq<char>, JsonView>| #[trigger] asks_about(h, m) ==> ok(m)
}

/// What holds of metadata when a run is asked for holds of its start document.
proof fn lemma_starts(
    a: EngineView,
    b: EngineView,
    h: Happening,
    ok: spec_fn(Map<Seq<char>, JsonView>) -> bool,
)
    requires
        happens(a, b, h),
        a.hooks.md_normalizer is None,
        !publishes(h),
        forall|m: Map<Seq<char>, JsonView>, id: u64|
            ok(m) ==> ok(#[trigger] with_scan_id(m, id)),
        match h {
            Happening::Handled { msg: Msg::OpenRun(meta), .. } => ok(merged_for(a, meta)),
            Happening::Numbered { merged, .. } => ok(merged),
            Happening::Validated { merged, .. } => ok(merged),
            _ => true,
        },
    ensures
        starts_are(h, ok),
        b.per_call_md == a.per_call_md,
{
    match h {
        Happening::Handled { msg, step, now } => match msg {
            Msg::OpenRun(meta) => {
                let merged = merged_for(a, meta);
                match (meta.scan_id, a.hooks.scan_id_source) {
                    (Some(id), _) => {
                        assert(ok(with_scan_id(merged, id)));
                    },
                    (None, Some(_)) => {},
                    (None, None) => {
                        assert(ok(with_scan_id(merged, (a.control.scan_id + 1) as u64)));
                    },
                }
            },
            Msg::CloseRun { .. } => {
                assert(with_result(b, a.last_msg_result).per_call_md == b.per_call_md);
            },
            Msg::Save => {
                let docs = docs_of(step.emit@);
                assert forall|d: int| 0 <= d < step.emit@.len() implies !(*(
                #[trigger] step.emit@[d]) is Start) by {
                    assert(docs[d] == *step.emit@[d]);
                }
            },
            _ => {},
        },
        Happening::Numbered { merged, id, .. } => {
            assert(ok(with_scan_id(merged, id)));
        },
        _ => {},
    }
}

/// Metadata that hold at the beginning of a course hold of all its start documents.
proof fn lemma_course(
    es: Seq<EngineView>,
    hs: Seq<Happening>,
    ok: spec_fn(Map<Seq<char>, JsonView>) -> bool,
    n: int,
)
    requires
        course(es, hs),
        0 <= n <= hs.len(),
        forall|i: int| 0 <= i < es.len() ==> (#[trigger] es[i]).hooks.md_normalizer is None,
        forall|m: Map<Seq<char>, JsonView>, id: u64|
            ok(m) ==> ok(#[trigger] with_scan_id(m, id)),
        forall|i: int|
            0 <= i < hs.len() && es[i].per_call_md == es[0].per_call_md ==> match #[trigger] hs[i] {
                Happening::Handled { msg: Msg::OpenRun(meta), .. } => ok(merged_for(es[i], meta)),
                _ => true,
            },
    ensures
        es[n].per_call_md == es[0].per_call_md,
        forall|i: int|
            0 <= i < n ==> publishes(#[trigger] hs[i]) || starts_are(hs[i], ok),
    decreases n,
{
    if n > 0 {
        lemma_course(es, hs, ok, n - 1);
        let i = n - 1;
        let h = hs[i];
        assert(happens(es[i], es[i + 1], h) && answers_for_what_was_asked(hs, i));
        if !publishes(h) {
            match h {
                Happening::Numbered { merged, .. } => {
                    let j = choose|j: int| 0 <= j < i && asks_about(#[trigger] hs[j], merged);
                    assert(starts_are(hs[j], ok));
                },
                Happening::Validated { merged, .. } => {
                    let j = choose|j: int| 0 <= j < i && asks_about(#[trigger] hs[j], merged);
                    assert(starts_are(hs[j], ok));
                },
                _ => {},
            }
            lemma_starts(es[i], es[i + 1], h, ok);
        }
    }
}

/// The metadata of a run call reach every run of the call: each start document that the engine
/// composes in its course has them, where the message that opens the run gives no other value.
pub proof fn law_call_metadata_reach_every_run(
    e: EngineView,
    staged: EngineView,
    opts: RunOptions,
    es: Seq<EngineView>,
    hs: Seq<Happening>,
    k: Seq<char>,
    i: int,
    d: int,
)
    requires
        options_staged(e, staged, opts),
        course(es, hs),
        es[0] == begun(staged),
        opts.md@.dom().contains(k),
        leaves_key(es, hs, k),
        0 <= i < hs.len(),
        !publishes(hs[i]),
        0 <= d < documents_of(hs[i]).len(),
        *documents_of(hs[i])[d] is Start,
    ensures
        has(start_in(documents_of(hs[i])[d]).extra@, k, opts.md@[k]),
{
    let v = opts.md@[k];
    let ok = |m: Map<Seq<char>, JsonView>| has(m, k, v);
    assert(has(es[0].per_call_md, k, v));
    assert forall|m: Map<Seq<char>, JsonView>, id: u64| ok(m) implies ok(
        #[trigger] with_scan_id(m, id),
    ) by {}
    assert forall|j: int|
        0 <= j < hs.len() && es[j].per_call_md == es[0].per_call_md implies match #[trigger] hs[j] {
        Happening::Handled { msg: Msg::OpenRun(meta), .. } => ok(merged_for(es[j], meta)),
        _ => true,
    } by {
        if let Happening::Handled { msg: Msg::OpenRun(meta), .. } = hs[j] {
            assert(!meta.extra@.dom().contains(k));
            assert(has(merged_for(es[j], meta), k, v));
        }
    }
    lemma_course(es, hs, ok, hs.len() as int);
    assert(starts_are(hs[i], ok));
    assert(ok(start_in(documents_of(hs[i])[d]).extra@));
}

/// The metadata of a run call end with it: no start document of a later call without metadata of
/// its own has a key that neither the persistent metadata nor the message gives.
pub proof fn law_call_metadata_end_with_the_call(
    e: EngineView,
    es: Seq<EngineView>,
    hs: Seq<Happening>,
    k: Seq<char>,
    i: int,
    d: int,
)
    requires
        course(es, hs),
        es[0].per_call_md == begun(ended(e)).per_call_md,
        forall|j: int| 0 <= j < es.len() ==> !(#[trigger] es[j]).md.dom().contains(k),
        k != "plan_name"@,
        k != "scan_id"@,
        leaves_key(es, hs, k),
        0 <= i < hs.len(),
        !publishes(hs[i]),
        0 <= d < documents_of(hs[i]).len(),
        *documents_of(hs[i])[d] is Start,
    ensures
        !start_in(documents_of(hs[i])[d]).extra@.dom().contains(k),
{
    let ok = |m: Map<Seq<char>, JsonView>| !m.dom().contains(k);
    assert forall|m: Map<Seq<char>, JsonView>, id: u64| ok(m) implies ok(
        #[trigger] with_scan_id(m, id),
    ) by {}
    assert forall|j: int|
        0 <= j < hs.len() && es[j].per_call_md == es[0].per_call_md implies match #[trigger] hs[j] {
        Happening::Handled { msg: Msg::OpenRun(meta), .. } => ok(merged_for(es[j], meta)),
        _ => true,
    } by {
        if let Happening::Handled { msg: Msg::OpenRun(meta), .. } = hs[j] {
            assert(!meta.extra@.dom().contains(k));
            assert(!es[j].md.dom().contains(k));
        }
    }
    lemma_course(es, hs, ok, hs.len() as int);
    assert(starts_are(hs[i], ok));
    assert(ok(start_in(documents_of(hs[i])[d]).extra@));
}

/// Whether `h` ends the subscription `id`.
pub open spec fn unsubscribes(h: Happening, id: u64) -> bool {
    match h {
        Happening::Handled { msg: Msg::Unsubscribe(i), .. } => i == id,
        Happening::Unsubscribed(i) => i == id,
        _ => false,
    }
}

/// Whether the callback `cb` is subscribed under `id`, and nothing else is, so that it is called
/// once for each document.
pub open spec fn subscribed_once(subs: Seq<(u64, u64)>, id: u64, cb: u64) -> bool {
    exists|p: int|
        {
            &&& 0 <= p < subs.len()
            &&& #[trigger] subs[p] == (id, cb)
            &&& forall|q: int| 0 <= q < subs.len() && q != p ==> (#[trigger] subs[q]).0 != id
        }
}

/// An item that is to be kept stays.
proof fn lemma_filter_has<T>(s: Seq<T>, keep: spec_fn(T) -> bool, n: int, x: T)
    requires
        0 <= n <= s.len(),
        s.take(n).contains(x),
        keep(x),
    ensures
        s.take(n).filter(keep).contains(x),
    decreases n,
{
    reveal(Seq::filter);
    let p = choose|p: int| 0 <= p < n && s.take(n)[p] == x;
    lemma_filter_next(s, n - 1, keep);
    let g = s.take(n - 1).filter(keep);
    let f = s.take(n).filter(keep);
    if p == n - 1 {
        assert(f[g.len() as int] == x);
    } else {
        assert(s.take(n - 1)[p] == x);
        lemma_filter_has(s, keep, n - 1, x);
        let q = choose|q: int| 0 <= q < g.len() && g[q] == x;
        assert(f[q] == x);
    }
}

/// A subscription of the call outlasts whatever does not end it.
proof fn lemma_subscription_stays(a: EngineView, b: EngineView, h: Happening, id: u64, cb: u64)
    requires
        happens(a, b, h),
        ids_in_order(a),
        a.subscribers.contains((id, cb)),
        a.temp_subscribers.contains(id),
        !unsubscribes(h, id),
    ensures
        ids_in_order(b),
        b.subscribers.contains((id, cb)),
        b.temp_subscribers.contains(id),
        b.control.sub_counter >= a.control.sub_counter,
{
    match h {
        Happening::Handled { msg, step, now } => match msg {
            Msg::Subscribe(c) => {
                lemma_pushed(a, b, c, id, cb);
                let p = choose|p: int|
                    0 <= p < a.temp_subscribers.len() && a.temp_subscribers[p] == id;
                assert(b.temp_subscribers[p] == id);
            },
            Msg::Unsubscribe(i) => {
                lemma_dropped(a, b, i, id, cb);
                let keep = |t: u64| t != i;
                let s = a.temp_subscribers;
                assert(s.take(s.len() as int) =~= s);
                lemma_filter_has(s, keep, s.len() as int, id);
            },
            Msg::CloseRun { .. } => {
                let mid = with_result(b, a.last_msg_result);
                assert(mid.subscribers == b.subscribers && mid.temp_subscribers
                    == b.temp_subscribers && mid.control == b.control);
            },
            _ => {},
        },
        Happening::Subscribed(c) => {
            lemma_pushed(a, b, c, id, cb);
        },
        Happening::Unsubscribed(i) => {
            lemma_dropped(a, b, i, id, cb);
        },
        _ => {},
    }
}

proof fn lemma_pushed(a: EngineView, b: EngineView, c: u64, id: u64, cb: u64)
    requires
        ids_in_order(a),
        a.subscribers.contains((id, cb)),
        a.control.sub_counter < u64::MAX,
        b.control.sub_counter == a.control.sub_counter + 1,
        b.subscribers == a.subscribers.push(((a.control.sub_counter + 1) as u64, c)),
    ensures
        ids_in_order(b),
        b.subscribers.contains((id, cb)),
{
    let p = choose|p: int| 0 <= p < a.subscribers.len() && a.subscribers[p] == (id, cb);
    assert(b.subscribers[p] == (id, cb));
}

proof fn lemma_dropped(a: EngineView, b: EngineView, i: u64, id: u64, cb: u64)
    requires
        ids_in_order(a),
        a.subscribers.contains((id, cb)),
        i != id,
        b.control.sub_counter == a.control.sub_counter,
        b.subscribers == without_id(a.subscribers, i),
    ensures
        ids_in_order(b),
        b.subscribers.contains((id, cb)),
{
    let s = a.subscribers;
    lemma_filtered_in_order(a, b, has_other_id(i));
    assert(s.take(s.len() as int) =~= s);
    lemma_filter_has(s, has_other_id(i), s.len() as int, (id, cb));
}

proof fn lemma_subscription_in_course(
    es: Seq<EngineView>,
    hs: Seq<Happening>,
    id: u64,
    cb: u64,
    n: int,
)
    requires
        course(es, hs),
        0 <= n <= hs.len(),
        ids_in_order(es[0]),
        es[0].subscribers.contains((id, cb)),
        es[0].temp_subscribers.contains(id),
        forall|i: int| 0 <= i < hs.len() ==> !unsubscribes(#[trigger] hs[i], id),
    ensures
        ids_in_order(es[n]),
        es[n].subscribers.contains((id, cb)),
        es[n].temp_subscribers.contains(id),
        es[n].control.sub_counter >= es[0].control.sub_counter,
    decreases n,
{
    if n > 0 {
        lemma_subscription_in_course(es, hs, id, cb, n - 1);
        assert(happens(es[n - 1], es[n], hs[n - 1]));
        lemma_subscription_stays(es[n - 1], es[n], hs[n - 1], id, cb);
    }
}

/// The subscribers of a run call hear the call and nothing after it. Unless it is ended by name,
/// the subscription of each is there, once, from the beginning of the call to its end. The cleanup
/// ends it, and its id is one that is not handed out again.
pub proof fn law_call_subscribers_hear_the_call(
    e: EngineView,
    staged: EngineView,
    opts: RunOptions,
    es: Seq<EngineView>,
    hs: Seq<Happening>,
    j: int,
    n: int,
)
    requires
        sound(e),
        e.control.sub_counter + opts.subs@.len() <= u64::MAX,
        options_staged(e, staged, opts),
        course(es, hs),
        es[0] == begun(staged),
        0 <= j < opts.subs@.len(),
        0 <= n <= hs.len(),
        forall|i: int|
            0 <= i < hs.len() ==> !unsubscribes(
                #[trigger] hs[i],
                next_ids(e.control.sub_counter, opts.subs@.len())[j],
            ),
    ensures
        ({
            let id = next_ids(e.control.sub_counter, opts.subs@.len())[j];
            let over = cleaned(es.last());
            &&& subscribed_once(es[n].subscribers, id, opts.subs@[j])
            &&& forall|q: int|
                0 <= q < over.subscribers.len() ==> (#[trigger] over.subscribers[q]).0 != id
            &&& id <= over.control.sub_counter
        }),
{
    let ids = next_ids(e.control.sub_counter, opts.subs@.len());
    let id = ids[j];
    let cb = opts.subs@[j];
    super::laws::law_run_call_keeps_soundness(
        e,
        staged,
        opts,
        None,
        None,
        arbitrary(),
        arbitrary(),
        seq![],
    );
    assert(ids_in_order(es[0]));
    assert(es[0].subscribers[e.subscribers.len() + j] == (id, cb));
    assert(es[0].temp_subscribers[staged.temp_subscribers.len() + j] == id);
    lemma_subscription_in_course(es, hs, id, cb, n);
    let subs = es[n].subscribers;
    let p = choose|p: int| 0 <= p < subs.len() && subs[p] == (id, cb);
    assert forall|q: int| 0 <= q < subs.len() && q != p implies (#[trigger] subs[q]).0 != id by {
        if q < p {
            assert(subs[q].0 < subs[p].0);
        } else {
            assert(subs[p].0 < subs[q].0);
        }
    }
    assert(subscribed_once(subs, id, cb));
    lemma_subscription_in_course(es, hs, id, cb, hs.len() as int);
    super::laws::law_cleanup_ends_temporary_subscriptions(es.last());
    let over = cleaned(es.last());
    assert forall|q: int| 0 <= q < over.subscribers.len() implies (
    #[trigger] over.subscribers[q]).0 != id by {
        assert(!es.last().temp_subscribers.contains(over.subscribers[q].0));
    }
}

/// Streams that are declared give no start document.
proof fn lemma_declared_no_start(
    before: BundlerView,
    after: BundlerView,
    streams: Seq<(Seq<char>, Map<Seq<char>, DataKeyView>)>,
    docs: Seq<Arc<Document>>,
    time: Double,
)
    requires
        streams_declared(before, after, streams, docs, time),
    ensures
        no_start(docs),
    decreases streams.len(),
{
    if streams.len() > 0 {
        let (name, keys) = streams.last();
        let rest = streams.drop_last();
        if after.described(name) is Some && streams_declared(before, after, rest, docs, time) {
            lemma_declared_no_start(before, after, rest, docs, time);
        } else {
            let mid = choose|mid: BundlerView|
                {
                    &&& #[trigger] declared_by(mid, after, name, keys, *docs.last(), time)
                    &&& streams_declared(before, mid, rest, docs.drop_last(), time)
                };
            lemma_declared_no_start(before, mid, rest, docs.drop_last(), time);
            assert forall|i: int| 0 <= i < docs.len() implies !(*(
            #[trigger] docs[i]) is Start) by {
                if i < docs.len() - 1 {
                    assert(docs.drop_last()[i] == docs[i]);
                }
            }
        }
    }
}

/// The options of a run call and its subscriptions are left alone by requests from outside, by the
/// delivery of messages, by the replies that compose documents, and by the end of the message
/// loop; and none of them gives a start document.
pub proof fn law_what_leaves_the_call_alone(
    a: EngineView,
    b: EngineView,
    defer: bool,
    f: Fetch,
    m: Msg,
    obj: ObjRef,
    readings: StrMap<ReadingValue>,
    keys: StrMap<DataKey>,
    hint_fields: Option<Vec<String>>,
    first: Map<Seq<char>, ReadingView>,
    stream: Seq<char>,
    streams: Seq<(Seq<char>, Map<Seq<char>, DataKeyView>)>,
    rows: Seq<Row>,
    stream_name: Option<String>,
    task: MonitorView,
    step: Step,
    content: Seq<char>,
    doc: Option<Arc<Document>>,
    run_uid: Option<String>,
    failure: Option<CirrusError>,
    result: RunResult,
    now: Now,
)
    ensures
        aside(a, EngineView { control: paused(a.control, defer), ..a }),
        aside(a, EngineView { control: Control { is_paused: false, ..a.control }, ..a }),
        aside(a, EngineView { control: aborted(a.control), ..a }),
        aside(a, EngineView { control: halted(a.control), ..a }),
        aside(a, EngineView { control: stopped(a.control), ..a }),
        fetched(a, b, f) ==> aside(a, b),
        aside(a, recorded(a, m)),
        aside(a, rewound(a)),
        aside(a, EngineView { monitor_tasks: seq![], ..a }),
        aside(a, EngineView { monitor_tasks: monitor_added(a.monitor_tasks, task), ..a }),
        read_done(a, b, step, obj, readings, keys, hint_fields) ==> happens(
            a,
            b,
            Happening::Aside(step.emit@),
        ),
        a.bundler is Some && b.bundler is Some && b == with_bundler(a, b.bundler->0)
            && streams_declared(
            a.bundler->0,
            b.bundler->0,
            streams,
            step.emit@,
            now.time,
        ) ==> happens(a, b, Happening::Aside(step.emit@)),
        rows_collected(a, b, rows, stream_name, step, now.time) ==> happens(
            a,
            b,
            Happening::Aside(step.emit@),
        ),
        monitor_seeded(a, b, stream, first, step.emit@, now.time) ==> happens(
            a,
            b,
            Happening::Aside(step.emit@),
        ),
        interruption_recorded(a, b, content, now.time, doc) ==> aside(a, b) && (doc matches Some(d)
            ==> !(*d is Start)),
        loop_finished(a, b, run_uid, failure, now, result, step.emit@) ==> happens(
            a,
            b,
            Happening::Aside(step.emit@),
        ),
{
    if a.bundler is Some && b.bundler is Some && streams_declared(
        a.bundler->0,
        b.bundler->0,
        streams,
        step.emit@,
        now.time,
    ) {
        lemma_declared_no_start(a.bundler->0, b.bundler->0, streams, step.emit@, now.time);
    }
}

} // verus!
