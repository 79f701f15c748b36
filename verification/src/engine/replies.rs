//! Replies to the calls of the engine.

use std::sync::Arc;

use vstd::prelude::*;
use vstd::string::*;

use super::dispatch::{lemma_filter_next, with_bundler, with_result};
use super::{
    done, quiet, refused, Call, EngineView, MonitorTask, MonitorView, MsgResult, MsgResultView,
    Next, Now, RunEngine, Step,
};
use crate::bundler::{
    split_readings, stream_declared, timestamps_of, values_of, BundlerView,
};
use crate::compose::{event_composed, BundleView};
use crate::documents::{DataKey, DataKeyView, Document, Event};
use crate::error::{is_plan_error, CirrusError, Span};
use crate::msg::ObjRef;
use crate::reading::{ReadingValue, ReadingView};
use crate::status::{engine_error, StatusError};
use crate::strmap::StrMap;
use crate::text::str_eq;
use crate::value::{Double, Duplicate, Json, JsonView};

verus! {

/// Whether a step passes an error on, with no document.
pub open spec fn failed(s: Step, e: CirrusError) -> bool {
    quiet(s, Next::Failed(e))
}

/// What a reply without a value gives.
pub open spec fn ended_with(s: Step, r: Result<(), CirrusError>) -> bool {
    match r {
        Ok(()) => done(s),
        Err(e) => failed(s, e),
    }
}

/// What a reading gives.
pub open spec fn read_done(
    before: EngineView,
    after: EngineView,
    s: Step,
    obj: ObjRef,
    readings: StrMap<ReadingValue>,
    keys: StrMap<DataKey>,
    hint_fields: Option<Vec<String>>,
) -> bool {
    let result = MsgResultView::Reading { data: readings@ };
    match before.bundler {
        None => refused(s, "Read with no open run"@) && after == with_result(before, result),
        Some(b) => if b.open is None {
            refused(s, "read with no open bundle"@) && after == before
        } else {
            done(s) && after == with_result(
                with_bundler(
                    before,
                    b.with_readings(
                        readings@,
                        keys@,
                        Some(obj.name@),
                        hint_fields.deep_view(),
                    ),
                ),
                result,
            )
        },
    }
}

/// The members of a wait group.
pub open spec fn members_of(groups: Map<Seq<char>, Seq<u64>>, g: Seq<char>) -> Seq<u64> {
    if groups.dom().contains(g) {
        groups[g]
    } else {
        seq![]
    }
}

/// What a status that a device issued gives: it joins its wait group, or is awaited at once.
pub open spec fn joined(
    before: EngineView,
    after: EngineView,
    status: u64,
    group: Option<String>,
    s: Step,
) -> bool {
    match group {
        Some(g) => done(s) && after == with_result(
            EngineView {
                groups: before.groups.insert(g@, members_of(before.groups, g@).push(status)),
                ..before
            },
            MsgResultView::Status { group: g@ },
        ),
        None => after == before && quiet(s, Next::Call(Call::AwaitStatus { status })),
    }
}

/// What the location of a device gives.
pub open spec fn located(
    before: EngineView,
    after: EngineView,
    r: Result<(Double, Double), CirrusError>,
    s: Step,
) -> bool {
    match r {
        Ok((setpoint, readback)) => done(s) && after == with_result(
            before,
            MsgResultView::Location { setpoint, readback },
        ),
        Err(e) => failed(s, e) && after == before,
    }
}

/// What the end of a staging gives.
pub open spec fn staging_ended(
    before: EngineView,
    after: EngineView,
    obj: ObjRef,
    r: Result<(), CirrusError>,
    s: Step,
) -> bool {
    &&& ended_with(s, r)
    &&& after == if r is Ok {
        EngineView { staged: before.staged.push(obj), ..before }
    } else {
        before
    }
}

/// What the end of an unstaging gives.
pub open spec fn unstaging_ended(
    before: EngineView,
    after: EngineView,
    obj: ObjRef,
    r: Result<(), CirrusError>,
    s: Step,
) -> bool {
    &&& ended_with(s, r)
    &&& after == if r is Ok {
        EngineView { staged: before.staged.filter(|o: ObjRef| o.id != obj.id), ..before }
    } else {
        before
    }
}

/// What a group that did not end within its time limit gives.
pub open spec fn wait_timed_out(error_on_timeout: bool, limit: Span, s: Step) -> bool {
    if error_on_timeout {
        failed(s, CirrusError::Timeout(limit))
    } else {
        done(s)
    }
}

/// What the line that the user gave gives.
pub open spec fn input_taken(
    before: EngineView,
    after: EngineView,
    r: Result<String, CirrusError>,
    s: Step,
) -> bool {
    match r {
        Ok(text) => done(s) && after == with_result(
            before,
            MsgResultView::Input { text: text@ },
        ),
        Err(e) => failed(s, e) && after == before,
    }
}

/// What the installation of a suspender gives.
pub open spec fn suspender_taken(
    before: EngineView,
    after: EngineView,
    id: u64,
    watched: bool,
    s: Step,
) -> bool {
    if watched {
        &&& done(s)
        &&& after == EngineView {
            suspenders: if before.suspenders.contains(id) {
                before.suspenders
            } else {
                before.suspenders.push(id)
            },
            ..before
        }
    } else {
        &&& refused(s, "InstallSuspender payload was not Arc<dyn Suspender>"@)
        &&& after == before
    }
}

/// What the end of a wait for factories gives.
pub open spec fn factories_told(end: WaitEnd, s: Step) -> bool {
    match end {
        WaitEnd::Finished(r) => ended_with(s, r),
        WaitEnd::TimedOut(limit) => failed(s, CirrusError::Timeout(limit)),
        WaitEnd::Cancelled => failed(s, CirrusError::Cancelled),
    }
}

/// What the description of what a device will collect gives.
pub open spec fn collecting(
    before: EngineView,
    after: EngineView,
    obj: ObjRef,
    stream_name: Option<String>,
    descs: Result<StrMap<StrMap<DataKey>>, CirrusError>,
    s: Step,
    time: Double,
) -> bool {
    match descs {
        Err(e) => failed(s, e) && after == before,
        Ok(d) => match before.bundler {
            None => refused(s, "Collect with no open run"@) && after == before,
            Some(b) => {
                &&& s.next == Next::Call(Call::CollectEvents { obj, stream_name })
                &&& after.bundler is Some
                &&& after == with_bundler(before, after.bundler->0)
                &&& streams_declared(b, after.bundler->0, d.pairs(), s.emit@, time)
            },
        },
    }
}

/// What the description of a device to monitor gives.
pub open spec fn monitoring(
    before: EngineView,
    after: EngineView,
    stream: String,
    obj: ObjRef,
    data_keys: Result<StrMap<DataKey>, CirrusError>,
    s: Step,
    time: Double,
) -> bool {
    match data_keys {
        Err(e) => failed(s, e) && after == before,
        Ok(keys) => match before.bundler {
            None => refused(s, "Monitor with no open run"@) && after == before,
            Some(b) => {
                &&& match s.next {
                    Next::Call(Call::ReadMonitor { stream: t, obj: o, run_uid }) => t == stream
                        && o == obj && run_uid@ == b.bundle.start_uid,
                    _ => false,
                }
                &&& if b.described(stream@) is Some {
                    s.emit@.len() == 0 && after == before
                } else {
                    &&& s.emit@.len() == 1
                    &&& after.bundler is Some
                    &&& after == with_bundler(before, after.bundler->0)
                    &&& match *s.emit@[0] {
                        Document::Descriptor(d) => d.data_keys == keys && stream_declared(
                            b,
                            after.bundler->0,
                            stream@,
                            d,
                            time,
                        ),
                        _ => false,
                    }
                }
            },
        },
    }
}

/// What the reading of a device to monitor gives.
pub open spec fn seeding(
    before: EngineView,
    after: EngineView,
    stream: String,
    obj: ObjRef,
    run_uid: String,
    readings: Result<StrMap<ReadingValue>, CirrusError>,
    s: Step,
    time: Double,
) -> bool {
    match readings {
        Err(e) => failed(s, e) && after == before,
        Ok(r) => {
            &&& s.next == Next::Call(Call::SubscribeMonitor { stream, obj, run_uid })
            &&& monitor_seeded(before, after, stream@, r@, s.emit@, time)
        },
    }
}

/// What the end of a monitor's subscription gives.
pub open spec fn subscription_ended(
    before: EngineView,
    after: EngineView,
    stream: String,
    obj: ObjRef,
    run_uid: String,
    r: Result<(), CirrusError>,
    out: (Step, bool),
) -> bool {
    &&& ended_with(out.0, r)
    &&& out.1 == (r is Ok && monitors(before.monitor_tasks, stream@, obj.name@))
    &&& after == if r is Ok {
        EngineView {
            monitor_tasks: monitor_added(
                before.monitor_tasks,
                MonitorView { stream: stream@, obj_name: obj.name@, run_uid: run_uid@ },
            ),
            ..before
        }
    } else {
        before
    }
}

/// What a wait for the statuses of a group does next.
#[derive(Debug)]
pub enum GroupNext {
    /// Await this status, and report how it ends.
    Await(u64),
    /// The wait is over.
    Over(Result<(), CirrusError>),
}

/// A wait for the statuses of a group, one after the other.
#[derive(Debug)]
pub struct GroupWait {
    /// The statuses.
    pub members: Vec<u64>,
    /// How many of them have been awaited.
    pub awaited: usize,
    /// Whether a status that fails ends the wait.
    pub error_on_timeout: bool,
}

/// What comes once the status awaited last has ended in `r`.
pub open spec fn member_step(
    before: GroupWait,
    after: GroupWait,
    r: Result<(), StatusError>,
    next: GroupNext,
) -> bool {
    let over = GroupWait { awaited: before.members.len(), ..before };
    match r {
        Err(e) if before.error_on_timeout => next == GroupNext::Over(Err(engine_error(e)))
            && after == over,
        _ => if before.awaited < before.members.len() {
            &&& next == GroupNext::Await(before.members@[before.awaited as int])
            &&& after == GroupWait { awaited: (before.awaited + 1) as usize, ..before }
        } else {
            next == GroupNext::Over(Ok(())) && after == over
        },
    }
}

impl GroupWait {
    /// A wait for `members` that has not begun.
    pub fn new(members: Vec<u64>, error_on_timeout: bool) -> (w: Self)
        ensures
            w == (GroupWait { members, awaited: 0, error_on_timeout }),
    {
        GroupWait { members, awaited: 0, error_on_timeout }
    }

    /// Begins the wait.
    pub fn begin(&mut self) -> (next: GroupNext)
        ensures
            member_step(*old(self), *final(self), Ok(()), next),
    {
        self.member_ended(Ok(()))
    }

    /// Takes the end of the status awaited last. A failure ends the wait only where it is asked
    /// to.
    pub fn member_ended(&mut self, r: Result<(), StatusError>) -> (next: GroupNext)
        ensures
            member_step(*old(self), *final(self), r, next),
    {
        match r {
            Err(e) => {
                if self.error_on_timeout {
                    self.awaited = self.members.len();
                    return GroupNext::Over(Err(e.into_error()));
                }
            },
            Ok(()) => {},
        }
        if self.awaited < self.members.len() {
            let member = self.members[self.awaited];
            self.awaited = self.awaited + 1;
            GroupNext::Await(member)
        } else {
            self.awaited = self.members.len();
            GroupNext::Over(Ok(()))
        }
    }
}

/// What a wait for factories does next.
#[derive(Debug)]
pub enum FactoryNext {
    /// Call this factory, await what it makes, and report how that ends.
    Await(u64),
    /// The wait is over.
    Over(Result<(), CirrusError>),
}

/// A wait for what factories make, one after the other.
#[derive(Debug)]
pub struct FactoryWait {
    /// The factories.
    pub factories: Arc<Vec<u64>>,
    /// How many of them have been called.
    pub called: usize,
}

/// What comes once the awaitable of the factory called last has ended in `r`.
pub open spec fn factory_step(
    before: FactoryWait,
    after: FactoryWait,
    r: Result<(), CirrusError>,
    next: FactoryNext,
) -> bool {
    let over = FactoryWait { called: before.factories.len(), ..before };
    match r {
        Err(e) => next == FactoryNext::Over(Err(e)) && after == over,
        Ok(()) => if before.called < before.factories.len() {
            &&& next == FactoryNext::Await(before.factories@[before.called as int])
            &&& after == FactoryWait { called: (before.called + 1) as usize, ..before }
        } else {
            next == FactoryNext::Over(Ok(())) && after == over
        },
    }
}

impl FactoryWait {
    /// A wait for `factories` that has not begun.
    pub fn new(factories: Arc<Vec<u64>>) -> (w: Self)
        ensures
            w == (FactoryWait { factories, called: 0 }),
    {
        FactoryWait { factories, called: 0 }
    }

    /// Begins the wait.
    pub fn begin(&mut self) -> (next: FactoryNext)
        ensures
            factory_step(*old(self), *final(self), Ok(()), next),
    {
        self.factory_ended(Ok(()))
    }

    /// Takes the end of the awaitable of the factory called last. The first failure ends the wait.
    pub fn factory_ended(&mut self, r: Result<(), CirrusError>) -> (next: FactoryNext)
        ensures
            factory_step(*old(self), *final(self), r, next),
    {
        match r {
            Err(e) => {
                self.called = self.factories.len();
                FactoryNext::Over(Err(e))
            },
            Ok(()) => if self.called < self.factories.len() {
                let factory = self.factories[self.called];
                self.called = self.called + 1;
                FactoryNext::Await(factory)
            } else {
                self.called = self.factories.len();
                FactoryNext::Over(Ok(()))
            },
        }
    }
}

/// Whether the first `n` outcomes are successes.
pub open spec fn succeeds<E>(rs: Seq<Result<(), E>>, n: int) -> bool {
    forall|j: int| 0 <= j < n ==> (#[trigger] rs[j]) is Ok
}

/// Factories are called in order, each once, each after the awaitable of the one before has ended
/// well. The wait succeeds where all do. The first failure is what the wait ends in, and no factory
/// is called after it. The wait goes through `ws`, is told of `rs`, of which the first is its
/// beginning, and answers with `ns`.
pub proof fn law_factories_run_in_order(
    ws: Seq<FactoryWait>,
    rs: Seq<Result<(), CirrusError>>,
    ns: Seq<FactoryNext>,
    i: int,
)
    requires
        ws.len() == rs.len() + 1,
        ns.len() == rs.len(),
        ws[0].called == 0,
        0 <= i < rs.len(),
        rs[0] is Ok,
        forall|j: int|
            0 <= j < rs.len() ==> factory_step(ws[j], ws[j + 1], #[trigger] rs[j], ns[j]),
    ensures
        succeeds(rs, i + 1) && i < ws[0].factories@.len() ==> ns[i] == FactoryNext::Await(
            ws[0].factories@[i],
        ),
        succeeds(rs, i + 1) && i >= ws[0].factories@.len() ==> ns[i] == FactoryNext::Over(Ok(())),
        succeeds(rs, i) && rs[i] is Err ==> ns[i] == FactoryNext::Over(Err(rs[i]->Err_0)),
        !succeeds(rs, i + 1) ==> ns[i] is Over,
{
    lemma_factories_called(ws, rs, ns, i);
    assert(factory_step(ws[i], ws[i + 1], rs[i], ns[i]));
    if succeeds(rs, i) && rs[i] is Ok {
        assert(succeeds(rs, i + 1));
    }
    if succeeds(rs, i + 1) {
        assert(rs[i] is Ok);
        assert(succeeds(rs, i));
    }
}

proof fn lemma_factories_called(
    ws: Seq<FactoryWait>,
    rs: Seq<Result<(), CirrusError>>,
    ns: Seq<FactoryNext>,
    i: int,
)
    requires
        ws.len() == rs.len() + 1,
        ns.len() == rs.len(),
        ws[0].called == 0,
        0 <= i <= rs.len(),
        forall|j: int|
            0 <= j < rs.len() ==> factory_step(ws[j], ws[j + 1], #[trigger] rs[j], ns[j]),
    ensures
        ws[i].factories == ws[0].factories,
        ws[i].called == if succeeds(rs, i) && i < ws[0].factories@.len() {
            i
        } else {
            ws[0].factories@.len() as int
        },
    decreases i,
{
    if i > 0 {
        lemma_factories_called(ws, rs, ns, i - 1);
        assert(factory_step(ws[i - 1], ws[i], rs[i - 1], ns[i - 1]));
        if succeeds(rs, i) {
            assert(rs[i - 1] is Ok);
            assert(succeeds(rs, i - 1));
        }
        if succeeds(rs, i - 1) && rs[i - 1] is Ok {
            assert(succeeds(rs, i));
        }
    }
}

/// The statuses of a group are awaited in order, each once. Where failures count, the first is what
/// the wait ends in, and no status is awaited after it; where they do not, every status is awaited
/// and the wait succeeds. The wait goes through `ws`, is told of `rs`, of which the first is its
/// beginning, and answers with `ns`.
pub proof fn law_group_is_awaited_in_order(
    ws: Seq<GroupWait>,
    rs: Seq<Result<(), StatusError>>,
    ns: Seq<GroupNext>,
    i: int,
)
    requires
        ws.len() == rs.len() + 1,
        ns.len() == rs.len(),
        ws[0].awaited == 0,
        0 <= i < rs.len(),
        rs[0] is Ok,
        forall|j: int| 0 <= j < rs.len() ==> member_step(ws[j], ws[j + 1], #[trigger] rs[j], ns[j]),
    ensures
        succeeds(rs, i + 1) || !ws[0].error_on_timeout ==> ns[i] == if i < ws[0].members@.len() {
            GroupNext::Await(ws[0].members@[i])
        } else {
            GroupNext::Over(Ok(()))
        },
        ws[0].error_on_timeout && succeeds(rs, i) && rs[i] is Err ==> ns[i] == GroupNext::Over(
            Err(engine_error(rs[i]->Err_0)),
        ),
        ws[0].error_on_timeout && !succeeds(rs, i + 1) ==> ns[i] is Over,
{
    lemma_members_awaited(ws, rs, ns, i);
    assert(member_step(ws[i], ws[i + 1], rs[i], ns[i]));
    if succeeds(rs, i) && rs[i] is Ok {
        assert(succeeds(rs, i + 1));
    }
    if succeeds(rs, i + 1) {
        assert(rs[i] is Ok);
        assert(succeeds(rs, i));
    }
}

proof fn lemma_members_awaited(
    ws: Seq<GroupWait>,
    rs: Seq<Result<(), StatusError>>,
    ns: Seq<GroupNext>,
    i: int,
)
    requires
        ws.len() == rs.len() + 1,
        ns.len() == rs.len(),
        ws[0].awaited == 0,
        0 <= i <= rs.len(),
        forall|j: int| 0 <= j < rs.len() ==> member_step(ws[j], ws[j + 1], #[trigger] rs[j], ns[j]),
    ensures
        ws[i].members == ws[0].members,
        ws[i].error_on_timeout == ws[0].error_on_timeout,
        ws[i].awaited == if (succeeds(rs, i) || !ws[0].error_on_timeout) && i
            < ws[0].members@.len() {
            i
        } else {
            ws[0].members@.len() as int
        },
    decreases i,
{
    if i > 0 {
        lemma_members_awaited(ws, rs, ns, i - 1);
        assert(member_step(ws[i - 1], ws[i], rs[i - 1], ns[i - 1]));
        if succeeds(rs, i) {
            assert(rs[i - 1] is Ok);
            assert(succeeds(rs, i - 1));
        }
        if succeeds(rs, i - 1) && rs[i - 1] is Ok {
            assert(succeeds(rs, i));
        }
    }
}

/// How a wait for factories ended.
#[derive(Debug)]
pub enum WaitEnd {
    /// Every awaitable resolved, or one failed.
    Finished(Result<(), CirrusError>),
    /// The time limit was reached.
    TimedOut(Span),
    /// The run was cancelled.
    Cancelled,
}

/// What declaring, in order, those of `streams` that are not yet described gives.
pub open spec fn streams_declared(
    before: BundlerView,
    after: BundlerView,
    streams: Seq<(Seq<char>, Map<Seq<char>, DataKeyView>)>,
    docs: Seq<Arc<Document>>,
    time: Double,
) -> bool
    decreases streams.len(),
{
    if streams.len() == 0 {
        after == before && docs.len() == 0
    } else {
        let (name, keys) = streams.last();
        let rest = streams.drop_last();
        ||| (after.described(name) is Some && streams_declared(before, after, rest, docs, time))
        ||| (docs.len() > 0 && exists|mid: BundlerView|
            {
                &&& #[trigger] declared_by(mid, after, name, keys, *docs.last(), time)
                &&& streams_declared(before, mid, rest, docs.drop_last(), time)
            })
    }
}

/// Whether `doc` is the descriptor that declares a stream that was not yet described.
pub open spec fn declared_by(
    before: BundlerView,
    after: BundlerView,
    name: Seq<char>,
    keys: Map<Seq<char>, DataKeyView>,
    doc: Document,
    time: Double,
) -> bool {
    &&& before.described(name) is None
    &&& match doc {
        Document::Descriptor(d) => d.data_keys@ == keys && stream_declared(
            before,
            after,
            name,
            d,
            time,
        ),
        _ => false,
    }
}

/// One row that a collectable device hands over: stream name, values, timestamps.
pub type Row = (String, StrMap<Json>, StrMap<Double>);

/// The stream that a row goes to.
pub open spec fn row_stream(row: Row, stream_name: Option<String>) -> Seq<char> {
    match stream_name {
        Some(s) => s@,
        None => row.0@,
    }
}

/// The composer after the first `n` rows were turned into events.
pub open spec fn counted(
    b: BundleView,
    rows: Seq<Row>,
    stream_name: Option<String>,
    n: int,
) -> BundleView
    decreases n,
{
    if n <= 0 {
        b
    } else {
        counted(b, rows, stream_name, n - 1).count(row_stream(rows[n - 1], stream_name))
    }
}

/// Whether the first `n` rows became the given events, in order.
pub open spec fn rows_emitted(
    b: BundleView,
    rows: Seq<Row>,
    stream_name: Option<String>,
    emit: Seq<Arc<Document>>,
    n: int,
    time: Double,
) -> bool {
    &&& emit.len() == n
    &&& forall|i: int|
        0 <= i < n ==> match *(#[trigger] emit[i]) {
            Document::Event(e) => {
                &&& event_composed(
                    counted(b, rows, stream_name, i),
                    counted(b, rows, stream_name, i + 1),
                    row_stream(rows[i], stream_name),
                    e,
                )
                &&& e.time == time
                &&& e.data == rows[i].1
                &&& e.timestamps == rows[i].2
            },
            _ => false,
        }
}

/// What collected rows give: each becomes an event, up to the first row of an undeclared
/// stream.
pub open spec fn rows_collected(
    before: EngineView,
    after: EngineView,
    rows: Seq<Row>,
    stream_name: Option<String>,
    s: Step,
    time: Double,
) -> bool {
    match before.bundler {
        None => if rows.len() == 0 {
            done(s) && after == before
        } else {
            refused(
                s,
                "Collect lost open run mid-process (bundler cleared while collect_dyn was awaiting)"@,
            ) && after == before
        },
        Some(b) => {
            let n = s.emit@.len() as int;
            &&& n <= rows.len()
            &&& rows_emitted(b.bundle, rows, stream_name, s.emit@, n, time)
            &&& after == with_bundler(
                before,
                BundlerView { bundle: counted(b.bundle, rows, stream_name, n), ..b },
            )
            &&& if n == rows.len() {
                s.next == Next::Done(None)
            } else {
                &&& !b.bundle.streams.dom().contains(row_stream(rows[n], stream_name))
                &&& match s.next {
                    Next::Failed(e) => is_plan_error(e, "event for unknown stream"@),
                    _ => false,
                }
            }
        },
    }
}

/// Turning rows into events declares no stream.
pub(super) proof fn lemma_counted(b: BundleView, rows: Seq<Row>, stream_name: Option<String>, n: int)
    requires
        0 <= n <= rows.len(),
        forall|i: int|
            0 <= i < n ==> b.streams.dom().contains(row_stream(#[trigger] rows[i], stream_name)),
    ensures
        counted(b, rows, stream_name, n).streams.dom() == b.streams.dom(),
        forall|k: Seq<char>| #[trigger]
            b.streams.dom().contains(k) ==> counted(b, rows, stream_name, n).streams[k].seq_num
                <= b.streams[k].seq_num + n,
    decreases n,
{
    if n > 0 {
        lemma_counted(b, rows, stream_name, n - 1);
        let stream = row_stream(rows[n - 1], stream_name);
        assert(counted(b, rows, stream_name, n).streams.dom() =~= b.streams.dom());
    }
}

impl RunEngine {
    /// Takes the reading and the description of a device.
    pub fn device_read(
        &mut self,
        obj: &ObjRef,
        readings: Result<StrMap<ReadingValue>, CirrusError>,
        data_keys: Result<StrMap<DataKey>, CirrusError>,
        hint_fields: Option<Vec<String>>,
    ) -> (step: Step)
        ensures
            match (readings, data_keys) {
                (Err(e), _) => failed(step, e) && final(self)@ == old(self)@,
                (Ok(_), Err(e)) => failed(step, e) && final(self)@ == old(self)@,
                (Ok(r), Ok(k)) => read_done(
                    old(self)@,
                    final(self)@,
                    step,
                    *obj,
                    r,
                    k,
                    hint_fields,
                ),
            },
    {
        let readings = match readings {
            Ok(r) => r,
            Err(e) => {
                return Step::quiet(Next::Failed(e));
            },
        };
        let data_keys = match data_keys {
            Ok(k) => k,
            Err(e) => {
                return Step::quiet(Next::Failed(e));
            },
        };
        let snapshot = readings.duplicate();
        match self.bundler.take() {
            None => {
                self.last_msg_result = MsgResult::Reading { data: snapshot };
                Step::refused("Read with no open run")
            },
            Some(mut bundler) => {
                let r = bundler.add_readings(
                    readings,
                    data_keys,
                    Some(obj.name.clone()),
                    hint_fields,
                );
                self.bundler = Some(bundler);
                match r {
                    Ok(()) => {
                        self.last_msg_result = MsgResult::Reading { data: snapshot };
                        Step::done()
                    },
                    Err(e) => Step::quiet(Next::Failed(e)),
                }
            },
        }
    }

    /// Takes the setpoint and the readback of a device.
    pub fn device_located(&mut self, r: Result<(Double, Double), CirrusError>) -> (step: Step)
        ensures
            located(old(self)@, final(self)@, r, step),
    {
        match r {
            Ok((setpoint, readback)) => {
                self.last_msg_result = MsgResult::Location { setpoint, readback };
                Step::done()
            },
            Err(e) => Step::quiet(Next::Failed(e)),
        }
    }

    /// Takes the status that a device issued: it joins its wait group, or is awaited at once
    /// when it has none.
    pub fn status_issued(&mut self, status: u64, group: Option<String>) -> (step: Step)
        ensures
            joined(old(self)@, final(self)@, status, group, step),
    {
        match group {
            Some(g) => {
                let mut members = match self.groups.remove(&g) {
                    Some(m) => m,
                    None => Vec::new(),
                };
                proof {
                    assert(members.deep_view() =~= members_of(old(self)@.groups, g@));
                }
                let ghost before = members.deep_view();
                members.push(status);
                proof {
                    assert(members.deep_view() =~= before.push(status));
                }
                self.groups.insert(g.clone(), members);
                proof {
                    assert(self@.groups =~= old(self)@.groups.insert(
                        g@,
                        members_of(old(self)@.groups, g@).push(status),
                    ));
                }
                self.last_msg_result = MsgResult::Status { group: g };
                Step::done()
            },
            None => Step::quiet(Next::Call(Call::AwaitStatus { status })),
        }
    }

    /// Takes the outcome of an awaited status.
    pub fn status_ended(&self, r: Result<(), StatusError>) -> (step: Step)
        ensures
            match r {
                Ok(()) => done(step),
                Err(e) => failed(step, engine_error(e)),
            },
    {
        match r {
            Ok(()) => Step::done(),
            Err(e) => Step::quiet(Next::Failed(e.into_error())),
        }
    }

    /// Takes the end of a call that changes nothing in the engine.
    pub fn call_ended(&self, r: Result<(), CirrusError>) -> (step: Step)
        ensures
            ended_with(step, r),
    {
        match r {
            Ok(()) => Step::done(),
            Err(e) => Step::quiet(Next::Failed(e)),
        }
    }

    /// Takes the end of a staging: the device is staged if it succeeded.
    pub fn device_staged(&mut self, obj: ObjRef, r: Result<(), CirrusError>) -> (step: Step)
        ensures
            staging_ended(old(self)@, final(self)@, obj, r, step),
    {
        match r {
            Ok(()) => {
                self.staged.push(obj);
                Step::done()
            },
            Err(e) => Step::quiet(Next::Failed(e)),
        }
    }

    /// Takes the end of an unstaging: the device is no longer staged if it succeeded.
    pub fn device_unstaged(&mut self, obj: &ObjRef, r: Result<(), CirrusError>) -> (step: Step)
        ensures
            unstaging_ended(old(self)@, final(self)@, *obj, r, step),
    {
        match r {
            Ok(()) => {
                let keep = Ghost(|o: ObjRef| o.id != obj.id);
                let ghost all = self.staged@;
                let mut kept: Vec<ObjRef> = Vec::new();
                let mut i: usize = 0;
                proof {
                    reveal(Seq::filter);
                    assert(all.take(0) =~= Seq::empty());
                }
                while i < self.staged.len()
                    invariant
                        i <= all.len(),
                        self.staged@ == all,
                        *self == *old(self),
                        keep@ == (|o: ObjRef| o.id != obj.id),
                        kept@ == all.take(i as int).filter(keep@),
                    decreases all.len() - i,
                {
                    proof {
                        lemma_filter_next(all, i as int, keep@);
                    }
                    if self.staged[i].id != obj.id {
                        kept.push(self.staged[i].again());
                    }
                    i += 1;
                }
                assert(all.take(all.len() as int) =~= all);
                self.staged = kept;
                Step::done()
            },
            Err(e) => Step::quiet(Next::Failed(e)),
        }
    }

    /// Takes the end of a wait for a group.
    pub fn group_ended(&self, r: Result<(), CirrusError>) -> (step: Step)
        ensures
            ended_with(step, r),
    {
        match r {
            Ok(()) => Step::done(),
            Err(e) => Step::quiet(Next::Failed(e)),
        }
    }

    /// Takes note that a group did not end within its time limit.
    pub fn group_timed_out(&self, error_on_timeout: bool, limit: Span) -> (step: Step)
        ensures
            wait_timed_out(error_on_timeout, limit, step),
    {
        if error_on_timeout {
            Step::quiet(Next::Failed(CirrusError::Timeout(limit)))
        } else {
            Step::done()
        }
    }

    /// Takes the end of a sleep.
    pub fn slept(&self, cancelled: bool) -> (step: Step)
        ensures
            if cancelled {
                failed(step, CirrusError::Cancelled)
            } else {
                done(step)
            },
    {
        if cancelled {
            Step::quiet(Next::Failed(CirrusError::Cancelled))
        } else {
            Step::done()
        }
    }

    /// Takes the line that the user gave.
    pub fn input_given(&mut self, r: Result<String, CirrusError>) -> (step: Step)
        ensures
            input_taken(old(self)@, final(self)@, r, step),
    {
        match r {
            Ok(text) => {
                self.last_msg_result = MsgResult::Input { text };
                Step::done()
            },
            Err(e) => Step::quiet(Next::Failed(e)),
        }
    }

    /// Takes the end of a suspender's installation; `watched` says whether the handle named a
    /// suspender.
    pub fn suspender_installed(&mut self, id: u64, watched: bool) -> (step: Step)
        ensures
            suspender_taken(old(self)@, final(self)@, id, watched, step),
    {
        if !watched {
            return Step::refused("InstallSuspender payload was not Arc<dyn Suspender>");
        }
        let mut i: usize = 0;
        while i < self.suspenders.len()
            invariant
                i <= self.suspenders.len(),
                watched,
                *self == *old(self),
                forall|k: int| 0 <= k < i ==> self.suspenders@[k] != id,
            decreases self.suspenders.len() - i,
        {
            if self.suspenders[i] == id {
                assert(self@.suspenders[i as int] == id);
                return Step::done();
            }
            i += 1;
        }
        self.suspenders.push(id);
        Step::done()
    }

    /// Takes the end of a wait for factories.
    pub fn factories_awaited(&self, end: WaitEnd) -> (step: Step)
        ensures
            factories_told(end, step),
    {
        match end {
            WaitEnd::Finished(Ok(())) => Step::done(),
            WaitEnd::Finished(Err(e)) => Step::quiet(Next::Failed(e)),
            WaitEnd::TimedOut(limit) => Step::quiet(Next::Failed(CirrusError::Timeout(limit))),
            WaitEnd::Cancelled => Step::quiet(Next::Failed(CirrusError::Cancelled)),
        }
    }

    /// Takes the description of what a device will collect: streams that are not yet described
    /// are declared, then the events are asked for.
    pub fn collect_described(
        &mut self,
        obj: ObjRef,
        stream_name: Option<String>,
        descs: Result<StrMap<StrMap<DataKey>>, CirrusError>,
        now: Now,
    ) -> (step: Step)
        ensures
            collecting(old(self)@, final(self)@, obj, stream_name, descs, step, now.time),
    {
        let descs = match descs {
            Ok(d) => d,
            Err(e) => {
                return Step::quiet(Next::Failed(e));
            },
        };
        match self.bundler.take() {
            None => Step::refused("Collect with no open run"),
            Some(bundler) => {
                let ghost b0 = bundler@;
                let ghost all = descs.pairs();
                let mut bundler = bundler;
                let mut emit: Vec<Arc<Document>> = Vec::new();
                let mut i: usize = 0;
                while i < descs.len()
                    invariant
                        i <= all.len(),
                        all == descs.pairs(),
                        streams_declared(b0, bundler@, all.take(i as int), emit@, now.time),
                    decreases all.len() - i,
                {
                    let name = descs.key_at(i);
                    let keys = descs.value_at(i);
                    let ghost next = all.take(i as int + 1);
                    proof {
                        assert(next.drop_last() =~= all.take(i as int));
                        assert(next.last() == all[i as int]);
                    }
                    if bundler.descriptor_uid(name).is_none() {
                        let ghost mid = bundler@;
                        let ghost docs = emit@;
                        let d = bundler.declare_stream(name.clone(), keys.duplicate(), now.time);
                        emit.push(Arc::new(Document::Descriptor(d)));
                        proof {
                            assert(declared_by(
                                mid,
                                bundler@,
                                next.last().0,
                                next.last().1,
                                *emit@.last(),
                                now.time,
                            ));
                            assert(emit@.drop_last() =~= docs);
                            assert(streams_declared(
                                b0,
                                mid,
                                next.drop_last(),
                                emit@.drop_last(),
                                now.time,
                            ));
                            assert(streams_declared(b0, bundler@, next, emit@, now.time));
                        }
                    }
                    i += 1;
                }
                assert(all.take(all.len() as int) =~= all);
                self.bundler = Some(bundler);
                Step { emit, next: Next::Call(Call::CollectEvents { obj, stream_name }) }
            },
        }
    }

    /// Takes the events that a device collected.
    pub fn events_collected(
        &mut self,
        stream_name: Option<String>,
        reply: Result<Vec<Row>, CirrusError>,
        now: Now,
    ) -> (step: Step)
        requires
            reply is Ok ==> old(self)@.room(reply->Ok_0@.len()),
        ensures
            match reply {
                Err(e) => failed(step, e) && final(self)@ == old(self)@,
                Ok(r) => rows_collected(
                    old(self)@,
                    final(self)@,
                    r@,
                    stream_name,
                    step,
                    now.time,
                ),
            },
    {
        let rows = match reply {
            Ok(r) => r,
            Err(e) => {
                return Step::quiet(Next::Failed(e));
            },
        };
        let ghost all = rows@;
        match self.bundler.take() {
            None => {
                if rows.len() == 0 {
                    Step::done()
                } else {
                    Step::refused(
                        "Collect lost open run mid-process (bundler cleared while collect_dyn was awaiting)",
                    )
                }
            },
            Some(bundler) => {
                let ghost b0 = bundler@;
                let mut bundler = bundler;
                let mut left = rows;
                let mut emit: Vec<Arc<Document>> = Vec::new();
                let ghost mut n: int = 0;
                proof {
                    assert(all.skip(0) =~= all);
                }
                while left.len() > 0
                    invariant
                        0 <= n <= all.len(),
                        left@ == all.skip(n),
                        reply is Ok,
                        reply->Ok_0@ == all,
                        old(self)@.bundler == Some(b0),
                        self@ == (EngineView { bundler: None, ..old(self)@ }),
                        b0.bundle.room(all.len()),
                        bundler@ == (BundlerView {
                            bundle: counted(b0.bundle, all, stream_name, n),
                            ..b0
                        }),
                        rows_emitted(b0.bundle, all, stream_name, emit@, n, now.time),
                        forall|i: int|
                            0 <= i < n ==> b0.bundle.streams.dom().contains(
                                row_stream(#[trigger] all[i], stream_name),
                            ),
                    decreases left@.len(),
                {
                    let (name, data, timestamps) = left.remove(0);
                    proof {
                        assert(all.skip(n)[0] == all[n]);
                        assert(left@ =~= all.skip(n + 1));
                        lemma_counted(b0.bundle, all, stream_name, n);
                        assert(bundler@.bundle.room(1)) by {
                            assert forall|k: Seq<char>| #[trigger]
                                bundler@.bundle.streams.dom().contains(
                                    k,
                                ) implies bundler@.bundle.streams[k].seq_num + 1 <= u64::MAX by {
                                assert(b0.bundle.streams.dom().contains(k));
                            }
                        }
                    }
                    let ghost before = emit@;
                    let event = match &stream_name {
                        Some(s) => bundler.event(s, data, timestamps, now.time),
                        None => bundler.event(&name, data, timestamps, now.time),
                    };
                    match event {
                        Some(e) => {
                            emit.push(Arc::new(Document::Event(e)));
                            proof {
                                assert(counted(b0.bundle, all, stream_name, n + 1)
                                    == bundler@.bundle);
                                assert forall|i: int| 0 <= i < n + 1 implies match *(
                                #[trigger] emit@[i]) {
                                    Document::Event(e) => {
                                        &&& event_composed(
                                            counted(b0.bundle, all, stream_name, i),
                                            counted(b0.bundle, all, stream_name, i + 1),
                                            row_stream(all[i], stream_name),
                                            e,
                                        )
                                        &&& e.time == now.time
                                        &&& e.data == all[i].1
                                        &&& e.timestamps == all[i].2
                                    },
                                    _ => false,
                                } by {
                                    if i < n {
                                        assert(emit@[i] == before[i]);
                                    }
                                }
                                n = n + 1;
                            }
                        },
                        None => {
                            self.bundler = Some(bundler);
                            return Step {
                                emit,
                                next: Next::Failed(CirrusError::plan("event for unknown stream")),
                            };
                        },
                    }
                }
                self.bundler = Some(bundler);
                Step { emit, next: Next::Done(None) }
            },
        }
    }

    /// Takes the description of a device to monitor: its stream is declared unless it is
    /// described already, then a reading is asked for.
    pub fn monitor_described(
        &mut self,
        stream: String,
        obj: ObjRef,
        data_keys: Result<StrMap<DataKey>, CirrusError>,
        now: Now,
    ) -> (step: Step)
        ensures
            monitoring(old(self)@, final(self)@, stream, obj, data_keys, step, now.time),
    {
        let data_keys = match data_keys {
            Ok(k) => k,
            Err(e) => {
                return Step::quiet(Next::Failed(e));
            },
        };
        match self.bundler.take() {
            None => Step::refused("Monitor with no open run"),
            Some(mut bundler) => {
                let mut emit: Vec<Arc<Document>> = Vec::new();
                let run_uid = bundler.start_uid().to_owned();
                if bundler.descriptor_uid(&stream).is_none() {
                    let d = bundler.declare_stream(stream.clone(), data_keys, now.time);
                    emit.push(Arc::new(Document::Descriptor(d)));
                }
                self.bundler = Some(bundler);
                Step { emit, next: Next::Call(Call::ReadMonitor { stream, obj, run_uid }) }
            },
        }
    }

    /// Takes the reading of a device to monitor: it is the first event of the stream, before any
    /// update arrives. Then the subscription is asked for.
    pub fn monitor_read(
        &mut self,
        stream: String,
        obj: ObjRef,
        run_uid: String,
        readings: Result<StrMap<ReadingValue>, CirrusError>,
        now: Now,
    ) -> (step: Step)
        requires
            old(self)@.room(1),
        ensures
            seeding(old(self)@, final(self)@, stream, obj, run_uid, readings, step, now.time),
    {
        let readings = match readings {
            Ok(r) => r,
            Err(e) => {
                return Step::quiet(Next::Failed(e));
            },
        };
        let mut emit: Vec<Arc<Document>> = Vec::new();
        match self.bundler.take() {
            None => {},
            Some(mut bundler) => {
                let (data, timestamps) = split_readings(readings);
                let event = bundler.event(&stream, data, timestamps, now.time);
                self.bundler = Some(bundler);
                match event {
                    Some(e) => emit.push(Arc::new(Document::Event(e))),
                    None => {},
                }
            },
        }
        Step { emit, next: Next::Call(Call::SubscribeMonitor { stream, obj, run_uid }) }
    }

    /// Takes the end of a monitor's subscription. A monitor that feeds the same stream from the same
    /// device is replaced: where `true` is given beside the step, its pump is to be ended.
    pub fn monitor_subscribed(
        &mut self,
        stream: String,
        obj: &ObjRef,
        run_uid: String,
        r: Result<(), CirrusError>,
    ) -> (out: (Step, bool))
        ensures
            subscription_ended(old(self)@, final(self)@, stream, *obj, run_uid, r, out),
    {
        match r {
            Ok(()) => {
                let mut left: Vec<MonitorTask> = Vec::new();
                std::mem::swap(&mut left, &mut self.monitor_tasks);
                let (kept, replaced) = without_monitor(left, &stream, &obj.name);
                let ghost before = kept.deep_view();
                let task = MonitorTask { stream, obj_name: obj.name.clone(), run_uid };
                let ghost t = task.deep_view();
                self.monitor_tasks = kept;
                self.monitor_tasks.push(task);
                assert(self.monitor_tasks.deep_view() =~= before.push(t));
                (Step::done(), replaced)
            },
            Err(e) => (Step::quiet(Next::Failed(e)), false),
        }
    }

    /// Composes the event of one monitor update, on the run that the monitor was started in.
    /// `None` when the monitor no longer runs, or its run is unknown or did not declare the
    /// stream.
    pub fn monitor_event(
        &mut self,
        task: &MonitorTask,
        value: Json,
        timestamp: Double,
        now: Now,
    ) -> (doc: Option<Event>)
        requires
            old(self)@.room(1),
        ensures
            monitor_ticked(
                old(self)@,
                final(self)@,
                task.deep_view(),
                value.deep_view(),
                timestamp,
                now.time,
                doc,
            ),
    {
        if !runs_monitor(&self.monitor_tasks, task) {
            return None;
        }
        let mut data: StrMap<Json> = StrMap::new();
        data.insert(task.obj_name.clone(), value);
        let mut timestamps: StrMap<Double> = StrMap::new();
        timestamps.insert(task.obj_name.clone(), timestamp);
        match self.bundler.take() {
            Some(mut bundler) => {
                if str_eq(bundler.start_uid(), &task.run_uid) {
                    let event = bundler.event(&task.stream, data, timestamps, now.time);
                    self.bundler = Some(bundler);
                    return event;
                }
                self.bundler = Some(bundler);
            },
            None => {},
        }
        match self.retired.remove(&task.run_uid) {
            None => {
                assert(self@.retired =~= old(self)@.retired);
                None
            },
            Some(bundle) => {
                let mut bundle = bundle;
                proof {
                    assert(old(self)@.retired.dom().contains(task.run_uid@));
                    assert(bundle@.room(1));
                }
                let event = bundle.event(&task.stream, data, timestamps, now.time);
                let ghost after = bundle@;
                self.retired.insert(task.run_uid.clone(), bundle);
                proof {
                    assert(self@.retired =~= old(self)@.retired.insert(task.run_uid@, after));
                    if event is None {
                        assert(self@.retired =~= old(self)@.retired);
                    }
                }
                event
            },
        }
    }
}

/// Whether a monitor feeds another stream than `stream`, or from another device than `obj_name`.
pub open spec fn other_monitor(stream: Seq<char>, obj_name: Seq<char>) -> spec_fn(MonitorView) -> bool {
    |t: MonitorView| !(t.stream == stream && t.obj_name == obj_name)
}

/// Whether one of `tasks` feeds `stream` from the device `obj_name`.
pub open spec fn monitors(tasks: Seq<MonitorView>, stream: Seq<char>, obj_name: Seq<char>) -> bool {
    exists|i: int|
        0 <= i < tasks.len() && (#[trigger] tasks[i]).stream == stream && tasks[i].obj_name
            == obj_name
}

/// The monitors with one more, which replaces one for the same stream and device.
pub open spec fn monitor_added(tasks: Seq<MonitorView>, t: MonitorView) -> Seq<MonitorView> {
    tasks.filter(other_monitor(t.stream, t.obj_name)).push(t)
}

/// Takes the monitors for `stream` and `obj_name` out; says whether there was one.
fn without_monitor(tasks: Vec<MonitorTask>, stream: &str, obj_name: &str) -> (out: (
    Vec<MonitorTask>,
    bool,
))
    ensures
        out.0.deep_view() == tasks.deep_view().filter(other_monitor(stream@, obj_name@)),
        out.1 == monitors(tasks.deep_view(), stream@, obj_name@),
{
    let ghost all = tasks.deep_view();
    let ghost keep = other_monitor(stream@, obj_name@);
    let mut left = tasks;
    let mut kept: Vec<MonitorTask> = Vec::new();
    let mut found = false;
    let ghost mut n: int = 0;
    proof {
        reveal(Seq::filter);
        assert(all.take(0) =~= Seq::empty());
        assert(kept.deep_view() =~= Seq::empty());
        assert(all.skip(0) =~= all);
    }
    while left.len() > 0
        invariant
            keep == other_monitor(stream@, obj_name@),
            0 <= n <= all.len(),
            left.deep_view() == all.skip(n),
            kept.deep_view() == all.take(n).filter(keep),
            found == monitors(all.take(n), stream@, obj_name@),
        decreases left@.len(),
    {
        assert(left.deep_view().len() == left@.len());
        let ghost left_before = left.deep_view();
        let ghost rest = left@;
        let t = left.remove(0);
        proof {
            assert(left@ =~= rest.drop_first());
            assert(left.deep_view() =~= left_before.drop_first());
            assert(t.deep_view() == left_before[0]);
            assert(left_before[0] == all[n]);
            lemma_filter_next(all, n, keep);
            assert(left.deep_view() =~= all.skip(n + 1));
            assert forall|i: int| 0 <= i < n implies #[trigger] all.take(n + 1)[i] == all.take(
                n,
            )[i] by {}
            assert(all.take(n + 1)[n] == all[n]);
        }
        let ghost kept_before = kept.deep_view();
        if str_eq(&t.stream, stream) && str_eq(&t.obj_name, obj_name) {
            found = true;
        } else {
            kept.push(t);
            assert(kept.deep_view() =~= kept_before.push(all[n]));
        }
        proof {
            if monitors(all.take(n), stream@, obj_name@) {
                let i = choose|i: int|
                    0 <= i < n && (#[trigger] all.take(n)[i]).stream == stream@ && all.take(
                        n,
                    )[i].obj_name == obj_name@;
                assert(all.take(n + 1)[i] == all.take(n)[i]);
            }
            n = n + 1;
        }
    }
    proof {
        assert(left.deep_view().len() == left@.len());
        assert(all.take(n) =~= all);
    }
    (kept, found)
}

/// The composer that the monitors of the run `uid` feed.
pub open spec fn monitor_bundle(e: EngineView, uid: Seq<char>) -> Option<BundleView> {
    match e.bundler {
        Some(b) if b.bundle.start_uid == uid => Some(b.bundle),
        _ => if e.retired.dom().contains(uid) {
            Some(e.retired[uid])
        } else {
            None
        },
    }
}

/// What the first reading of a monitored device gives: an event, where the open run declares the
/// stream.
pub open spec fn monitor_seeded(
    before: EngineView,
    after: EngineView,
    stream: Seq<char>,
    readings: Map<Seq<char>, ReadingView>,
    emit: Seq<Arc<Document>>,
    time: Double,
) -> bool {
    match before.bundler {
        Some(b) if b.bundle.streams.dom().contains(stream) => {
            &&& emit.len() == 1
            &&& match *emit[0] {
                Document::Event(e) => {
                    &&& event_composed(b.bundle, b.bundle.count(stream), stream, e)
                    &&& e.time == time
                    &&& e.data@ == values_of(readings)
                    &&& e.timestamps@ == timestamps_of(readings)
                },
                _ => false,
            }
            &&& after == with_bundler(
                before,
                BundlerView { bundle: b.bundle.count(stream), ..b },
            )
        },
        _ => emit.len() == 0 && after == before,
    }
}

/// Whether a monitor is among those that run.
fn runs_monitor(tasks: &Vec<MonitorTask>, task: &MonitorTask) -> (yes: bool)
    ensures
        yes == tasks.deep_view().contains(task.deep_view()),
{
    let mut i: usize = 0;
    while i < tasks.len()
        invariant
            i <= tasks.len(),
            forall|j: int| 0 <= j < i ==> #[trigger] tasks.deep_view()[j] != task.deep_view(),
        decreases tasks.len() - i,
    {
        let t = &tasks[i];
        assert(tasks.deep_view()[i as int] == t.deep_view());
        if str_eq(&t.stream, &task.stream) && str_eq(&t.obj_name, &task.obj_name) && str_eq(
            &t.run_uid,
            &task.run_uid,
        ) {
            assert(tasks.deep_view()[i as int] == task.deep_view());
            return true;
        }
        i += 1;
    }
    false
}

/// What one monitor update gives: an event, where the monitor runs and its run declares the
/// stream.
pub open spec fn monitor_ticked(
    before: EngineView,
    after: EngineView,
    task: MonitorView,
    value: JsonView,
    timestamp: Double,
    time: Double,
    doc: Option<Event>,
) -> bool {
    let bundle = monitor_bundle(before, task.run_uid);
    match doc {
        None => {
            &&& after == before
            &&& before.monitor_tasks.contains(task) ==> (bundle matches Some(b)
                ==> !b.streams.dom().contains(task.stream))
        },
        Some(e) => {
            &&& before.monitor_tasks.contains(task)
            &&& bundle is Some
            &&& event_composed(
                bundle->0,
                bundle->0.count(task.stream),
                task.stream,
                e,
            )
            &&& e.time == time
            &&& e.data@ == Map::<Seq<char>, JsonView>::empty().insert(task.obj_name, value)
            &&& e.timestamps@ == Map::<Seq<char>, Double>::empty().insert(
                task.obj_name,
                timestamp,
            )
            &&& match before.bundler {
                Some(b) if b.bundle.start_uid == task.run_uid => after == with_bundler(
                    before,
                    BundlerView { bundle: bundle->0.count(task.stream), ..b },
                ),
                _ => after == EngineView {
                    retired: before.retired.insert(
                        task.run_uid,
                        bundle->0.count(task.stream),
                    ),
                    ..before
                },
            }
        },
    }
}

} // verus!
