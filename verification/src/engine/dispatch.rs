//! Processing of messages, and of the replies to the calls that they lead to.

use std::sync::Arc;

use vstd::prelude::*;
use vstd::string::*;

use super::control::{paused, without_id};
use super::run::{can_number, opening, run_closed};
use super::{
    done, quiet, refused, Call, CheckpointSnapshot, Control, EngineView, MonitorTask, MonitorView,
    MsgResult, MsgResultView, Next, Now, RunEngine, Step,
};
use crate::bundler::{saved, stream_declared, BundlerView, OpenView};
use crate::documents::{DataKey, DataKeyView, Document};
use crate::error::{CirrusError, Span};
use crate::msg::{Msg, ObjRef};
use crate::strmap::StrMap;
use crate::text::{join2, opt_text, str_eq};
use crate::value::{Double, Duplicate};

verus! {

/// The documents behind shared handles.
pub open spec fn docs_of(emit: Seq<Arc<Document>>) -> Seq<Document> {
    emit.map_values(|d: Arc<Document>| *d)
}

/// The engine with another open run.
pub open spec fn with_bundler(e: EngineView, b: BundlerView) -> EngineView {
    EngineView { bundler: Some(b), ..e }
}

/// The engine with another result of the latest message.
pub open spec fn with_result(e: EngineView, r: MsgResultView) -> EngineView {
    EngineView { last_msg_result: r, ..e }
}

/// The engine at a checkpoint: the record starts anew.
pub open spec fn at_checkpoint(e: EngineView) -> EngineView {
    EngineView {
        msg_cache: seq![],
        control: Control { rewindable: true, ..e.control },
        ..e
    }
}

/// The engine once a deferred pause, if one waits, takes effect.
pub open spec fn deferred_applied(e: EngineView) -> EngineView {
    if e.control.deferred_pause {
        EngineView {
            control: Control { deferred_pause: false, is_paused: true, ..e.control },
            ..e
        }
    } else {
        e
    }
}

/// The UID of the open run.
pub open spec fn run_uid_of(e: EngineView) -> Option<Seq<char>> {
    match e.bundler {
        Some(b) => Some(b.bundle.start_uid),
        None => None,
    }
}

/// The stream that a monitor of `obj` feeds.
pub open spec fn monitor_stream(obj: ObjRef, name: Option<String>) -> Seq<char> {
    match name {
        Some(n) => n@,
        None => obj.name@,
    }
}

/// Whether the machine's counters have room for the effect of `msg`.
pub open spec fn admits(e: EngineView, msg: Msg) -> bool {
    match msg {
        Msg::OpenRun(meta) => can_number(e, *meta),
        Msg::Save => e.room(1),
        Msg::Subscribe(_) => e.control.sub_counter < u64::MAX,
        _ => true,
    }
}

/// What `Create` gives.
pub open spec fn created(before: EngineView, after: EngineView, name: Seq<char>, s: Step) -> bool {
    match before.bundler {
        None => refused(s, "Create with no open run"@) && after == before,
        Some(b) => if b.open is Some {
            refused(s, "create called while a previous bundle is still open"@) && after == before
        } else {
            done(s) && after == with_bundler(
                before,
                BundlerView {
                    open: Some(OpenView { stream_name: name, readings: Map::empty() }),
                    ..b
                },
            )
        },
    }
}

/// What `Save` gives.
pub open spec fn bundle_saved(before: EngineView, after: EngineView, s: Step, time: Double) -> bool {
    match before.bundler {
        None => refused(s, "Save with no open run"@) && after == before,
        Some(b) => match b.open {
            None => refused(s, "save with no open bundle"@) && after == before,
            Some(open) => if b.described(open.stream_name) is Some
                && !b.bundle.streams.dom().contains(open.stream_name) {
                refused(s, "event for unknown stream"@) && after == with_bundler(
                    before,
                    b.closed_bundle(),
                )
            } else {
                &&& s.next == Next::Done(None)
                &&& after.bundler is Some
                &&& after == with_bundler(before, after.bundler->0)
                &&& saved(b, after.bundler->0, docs_of(s.emit@), time)
            },
        },
    }
}

/// What `Drop` gives.
pub open spec fn bundle_dropped(before: EngineView, after: EngineView, s: Step) -> bool {
    match before.bundler {
        None => refused(s, "Drop with no open run"@) && after == before,
        Some(b) => if b.open is None {
            refused(s, "drop with no open bundle"@) && after == before
        } else {
            done(s) && after == with_bundler(before, b.closed_bundle())
        },
    }
}

/// What `DeclareStream` gives.
pub open spec fn stream_predeclared(
    before: EngineView,
    after: EngineView,
    name: Seq<char>,
    keys: Map<Seq<char>, DataKeyView>,
    s: Step,
    time: Double,
) -> bool {
    match before.bundler {
        None => refused(s, "DeclareStream with no open run"@) && after == before,
        Some(b) => {
            &&& s.next == Next::Done(None)
            &&& s.emit@.len() == 1
            &&& after.bundler is Some
            &&& after == with_bundler(before, after.bundler->0)
            &&& match *s.emit@[0] {
                Document::Descriptor(d) => d.data_keys@ == keys && stream_declared(
                    b,
                    after.bundler->0,
                    name,
                    d,
                    time,
                ),
                _ => false,
            }
        },
    }
}

/// What `Wait` gives.
pub open spec fn waiting(
    before: EngineView,
    after: EngineView,
    group: Seq<char>,
    error_on_timeout: bool,
    timeout: Option<Span>,
    s: Step,
) -> bool {
    &&& after == EngineView { groups: before.groups.remove(group), ..before }
    &&& if before.groups.dom().contains(group) && before.groups[group].len() > 0 {
        &&& s.emit@.len() == 0
        &&& match s.next {
            Next::Call(
                Call::AwaitGroup { members, error_on_timeout: e, timeout: t },
            ) => members@ == before.groups[group] && e == error_on_timeout && t == timeout,
            _ => false,
        }
    } else {
        done(s)
    }
}

/// What `Checkpoint` gives.
pub open spec fn checkpointed(before: EngineView, after: EngineView, s: Step, now: Now) -> bool {
    match before.hooks.checkpoint_hook {
        Some(h) => {
            &&& after == at_checkpoint(before)
            &&& s.emit@.len() == 0
            &&& match s.next {
                Next::Call(Call::Checkpoint { hook, snapshot }) => hook == h
                    && snapshot.timestamp_ns == now.nanos && opt_text(snapshot.run_uid)
                    == run_uid_of(before),
                _ => false,
            }
        },
        None => done(s) && after == deferred_applied(at_checkpoint(before)),
    }
}

/// What processing `msg` gives: the engine after it, and the step.
pub open spec fn handled(
    before: EngineView,
    after: EngineView,
    msg: Msg,
    s: Step,
    now: Now,
) -> bool {
    match msg {
        Msg::OpenRun(meta) => opening(before, after, s, *meta, now.time),
        Msg::CloseRun { exit_status, reason } => {
            &&& s.next == Next::Done(None)
            &&& after.last_msg_result == MsgResultView::CloseRun { exit_status: exit_status@ }
            &&& run_closed(
                before,
                with_result(after, before.last_msg_result),
                s.emit@,
                exit_status@,
                opt_text(reason),
                now.time,
            )
        },
        Msg::Create { stream_name } => created(before, after, stream_name@, s),
        Msg::Save => bundle_saved(before, after, s, now.time),
        Msg::Drop => bundle_dropped(before, after, s),
        Msg::DeclareStream { stream_name, data_keys } => stream_predeclared(
            before,
            after,
            stream_name@,
            (*data_keys)@,
            s,
            now.time,
        ),
        Msg::Read(obj) => after == before && quiet(s, Next::Call(Call::Read { obj })),
        Msg::Locate(obj) => after == before && quiet(s, Next::Call(Call::Locate { obj })),
        Msg::SetValue { obj, value, group } => {
            &&& after == EngineView {
                movable_objs_touched: before.movable_objs_touched.insert(
                    obj.name@,
                    obj.deep_view(),
                ),
                ..before
            }
            &&& quiet(s, Next::Call(Call::Move { obj, value, group }))
        },
        Msg::Trigger { obj, group } => after == before && quiet(
            s,
            Next::Call(Call::Trigger { obj, group }),
        ),
        Msg::Stage(obj) => after == before && quiet(s, Next::Call(Call::Stage { obj })),
        Msg::Unstage(obj) => after == before && quiet(s, Next::Call(Call::Unstage { obj })),
        Msg::Stop { obj, success } => after == before && quiet(
            s,
            Next::Call(Call::Stop { obj, success }),
        ),
        Msg::Kickoff { obj, group } => {
            &&& after == EngineView {
                flyable_objs_touched: before.flyable_objs_touched.insert(
                    obj.name@,
                    obj.deep_view(),
                ),
                ..before
            }
            &&& quiet(s, Next::Call(Call::Kickoff { obj, group }))
        },
        Msg::Complete { obj, group } => after == before && quiet(
            s,
            Next::Call(Call::Complete { obj, group }),
        ),
        Msg::Collect { obj, stream_name } => after == before && quiet(
            s,
            Next::Call(Call::DescribeCollect { obj, stream_name }),
        ),
        Msg::Monitor { obj, name } => {
            &&& after == before
            &&& s.emit@.len() == 0
            &&& match s.next {
                Next::Call(Call::DescribeMonitor { stream, obj: o }) => stream@
                    == monitor_stream(obj, name) && o == obj,
                _ => false,
            }
        },
        Msg::Unmonitor(obj) => done(s) && after == EngineView {
            monitor_tasks: before.monitor_tasks.filter(
                |t: MonitorView| t.obj_name != obj.name@,
            ),
            ..before
        },
        Msg::Wait { group, error_on_timeout, timeout } => waiting(
            before,
            after,
            group@,
            error_on_timeout,
            timeout,
            s,
        ),
        Msg::Sleep(span) => after == before && quiet(s, Next::Call(Call::Sleep { span })),
        Msg::Checkpoint => checkpointed(before, after, s, now),
        Msg::ClearCheckpoint => done(s) && after == EngineView {
            msg_cache: seq![],
            control: Control { rewindable: false, ..before.control },
            ..before
        },
        Msg::Pause { defer } => done(s) && after == EngineView {
            control: paused(before.control, defer),
            ..before
        },
        Msg::Configure { obj, args } => after == before && quiet(
            s,
            Next::Call(Call::Configure { obj, args }),
        ),
        Msg::Prepare { obj, value, group } => after == before && quiet(
            s,
            Next::Call(Call::Prepare { obj, value, group }),
        ),
        Msg::WaitFor { factories, timeout } => after == before && quiet(
            s,
            Next::Call(Call::WaitFor { factories, timeout }),
        ),
        Msg::RegisterPausable(obj) => done(s) && after == EngineView {
            pausables: before.pausables.insert(obj.name@, obj.deep_view()),
            ..before
        },
        Msg::UnregisterPausable(obj) => done(s) && after == EngineView {
            pausables: before.pausables.remove(obj.name@),
            ..before
        },
        Msg::Input { prompt } => {
            &&& after == before
            &&& match before.hooks.input_handler {
                Some(handler) => quiet(s, Next::Call(Call::Input { handler, prompt })),
                None => refused(s, "Msg::Input issued but no input handler installed"@),
            }
        },
        Msg::ReClass => done(s) && after == with_result(
            before,
            MsgResultView::EngineClass { name: "cirrus.RunEngine"@ },
        ),
        Msg::Subscribe(cb) => {
            let id = (before.control.sub_counter + 1) as u64;
            done(s) && after == EngineView {
                control: Control { sub_counter: id, ..before.control },
                subscribers: before.subscribers.push((id, cb)),
                temp_subscribers: before.temp_subscribers.push(id),
                last_msg_result: MsgResultView::SubscriptionId { id },
                ..before
            }
        },
        Msg::Unsubscribe(id) => done(s) && after == EngineView {
            subscribers: without_id(before.subscribers, id),
            temp_subscribers: before.temp_subscribers.filter(|t: u64| t != id),
            ..before
        },
        Msg::Fail(reason) => after == before && quiet(s, Next::Failed(CirrusError::Plan(reason))),
        Msg::Resume => done(s) && after == EngineView {
            control: Control { is_paused: false, ..before.control },
            ..before
        },
        Msg::InstallSuspender { id, suspender } => after == before && quiet(
            s,
            Next::Call(Call::InstallSuspender { id, suspender }),
        ),
        Msg::RemoveSuspender { id } => done(s) && after == EngineView {
            suspenders: before.suspenders.filter(|t: u64| t != id),
            ..before
        },
        Msg::Rewindable(b) => done(s) && after == EngineView {
            control: Control { rewindable: b, ..before.control },
            ..before
        },
        Msg::Custom { name, payload } => {
            &&& after == before
            &&& if before.commands.dom().contains(name@) {
                quiet(
                    s,
                    Next::Call(Call::Custom { handler: before.commands[name@], payload }),
                )
            } else {
                refused(s, "unknown custom command: "@ + name@)
            }
        },
        Msg::Publish(doc) => {
            &&& after == before
            &&& s.emit@ == seq![doc]
            &&& s.next == Next::Done(None)
        },
        Msg::Null => done(s) && after == before,
    }
}

/// Removes every occurrence of `id`.
fn retain_other(v: &Vec<u64>, id: u64) -> (kept: Vec<u64>)
    ensures
        kept@ == v@.filter(|t: u64| t != id),
{
    let keep = Ghost(|t: u64| t != id);
    let mut kept: Vec<u64> = Vec::new();
    let mut i: usize = 0;
    proof {
        reveal(Seq::filter);
        assert(v@.take(0) =~= Seq::empty());
    }
    while i < v.len()
        invariant
            i <= v.len(),
            keep@ == (|t: u64| t != id),
            kept@ == v@.take(i as int).filter(keep@),
        decreases v.len() - i,
    {
        proof {
            lemma_filter_next(v@, i as int, keep@);
        }
        if v[i] != id {
            kept.push(v[i]);
        }
        i += 1;
    }
    assert(v@.take(v@.len() as int) =~= v@);
    kept
}

/// Filtering one more item.
pub proof fn lemma_filter_next<T>(all: Seq<T>, i: int, keep: spec_fn(T) -> bool)
    requires
        0 <= i < all.len(),
    ensures
        all.take(i + 1).filter(keep) == if keep(all[i]) {
            all.take(i).filter(keep).push(all[i])
        } else {
            all.take(i).filter(keep)
        },
{
    reveal(Seq::filter);
    assert(all.take(i + 1).drop_last() =~= all.take(i));
    assert(all.take(i + 1).last() == all[i]);
}

impl RunEngine {
    /// Whether the counters have room for the effect of `msg`.
    pub fn can_handle(&self, msg: &Msg) -> (yes: bool)
        ensures
            yes == admits(self@, *msg),
    {
        match msg {
            Msg::OpenRun(meta) => meta.scan_id.is_some() || self.hooks.scan_id_source.is_some()
                || self.control.scan_id < u64::MAX,
            Msg::Save => self.has_room(1),
            Msg::Subscribe(_) => self.control.sub_counter < u64::MAX,
            _ => true,
        }
    }

    /// Whether the open run and the retired ones can number `n` more events per stream.
    pub fn has_room(&self, n: u64) -> (yes: bool)
        ensures
            yes == self@.room(n as nat),
    {
        match &self.bundler {
            Some(b) => {
                if !b.compose().has_room(n) {
                    return false;
                }
            },
            None => {},
        }
        let ghost pairs = self.retired.pairs();
        let mut i: usize = 0;
        while i < self.retired.len()
            invariant
                i <= pairs.len(),
                pairs == self.retired.pairs(),
                forall|j: int|
                    0 <= j < i ==> self.retired@[(#[trigger] pairs[j]).0].room(n as nat),
            decreases pairs.len() - i,
        {
            let key = self.retired.key_at(i);
            let b = self.retired.value_at(i);
            if !b.has_room(n) {
                assert(self@.retired.dom().contains(key@));
                return false;
            }
            i += 1;
        }
        proof {
            self.retired.lemma_keys();
            assert forall|k: Seq<char>| #[trigger]
                self@.retired.dom().contains(k) implies self@.retired[k].room(n as nat) by {
                let j = choose|j: int| 0 <= j < pairs.len() && (#[trigger] pairs[j]).0 == k;
                assert(pairs[j].0 == k);
            }
        }
        true
    }

    /// Processes one message.
    #[verifier::rlimit(60)]
    #[verifier::spinoff_prover]
    pub fn handle(&mut self, msg: Msg, now: Now) -> (step: Step)
        requires
            admits(old(self)@, msg),
        ensures
            handled(old(self)@, final(self)@, msg, step, now),
    {
        match msg {
            Msg::OpenRun(meta) => self.open_run(&meta, now),
            Msg::CloseRun { exit_status, reason } => {
                let emit = self.close_run_if_open(&exit_status, reason, now);
                let ghost mid = self@;
                self.last_msg_result = MsgResult::CloseRun { exit_status };
                assert(with_result(self@, old(self)@.last_msg_result) == mid);
                Step { emit, next: Next::Done(None) }
            },
            Msg::Create { stream_name } => self.on_create(stream_name),
            Msg::Save => self.on_save(now),
            Msg::Drop => self.on_drop(),
            Msg::DeclareStream { stream_name, data_keys } => self.on_declare_stream(
                stream_name,
                &data_keys,
                now,
            ),
            Msg::Read(obj) => Step::quiet(Next::Call(Call::Read { obj })),
            Msg::Locate(obj) => Step::quiet(Next::Call(Call::Locate { obj })),
            Msg::SetValue { obj, value, group } => {
                self.movable_objs_touched.insert(obj.name.clone(), obj.again());
                Step::quiet(Next::Call(Call::Move { obj, value, group }))
            },
            Msg::Trigger { obj, group } => Step::quiet(Next::Call(Call::Trigger { obj, group })),
            Msg::Stage(obj) => Step::quiet(Next::Call(Call::Stage { obj })),
            Msg::Unstage(obj) => Step::quiet(Next::Call(Call::Unstage { obj })),
            Msg::Stop { obj, success } => Step::quiet(Next::Call(Call::Stop { obj, success })),
            Msg::Kickoff { obj, group } => {
                self.flyable_objs_touched.insert(obj.name.clone(), obj.again());
                Step::quiet(Next::Call(Call::Kickoff { obj, group }))
            },
            Msg::Complete { obj, group } => Step::quiet(
                Next::Call(Call::Complete { obj, group }),
            ),
            Msg::Collect { obj, stream_name } => Step::quiet(
                Next::Call(Call::DescribeCollect { obj, stream_name }),
            ),
            Msg::Monitor { obj, name } => {
                let stream = match name {
                    Some(n) => n,
                    None => obj.name.clone(),
                };
                Step::quiet(Next::Call(Call::DescribeMonitor { stream, obj }))
            },
            Msg::Unmonitor(obj) => self.on_unmonitor(&obj),
            Msg::Wait { group, error_on_timeout, timeout } => self.on_wait(
                &group,
                error_on_timeout,
                timeout,
            ),
            Msg::Sleep(span) => Step::quiet(Next::Call(Call::Sleep { span })),
            Msg::Checkpoint => self.on_checkpoint(now),
            Msg::ClearCheckpoint => {
                self.control.rewindable = false;
                self.msg_cache.clear();
                Step::done()
            },
            Msg::Pause { defer } => {
                self.pause(defer);
                Step::done()
            },
            Msg::Configure { obj, args } => Step::quiet(
                Next::Call(Call::Configure { obj, args }),
            ),
            Msg::Prepare { obj, value, group } => Step::quiet(
                Next::Call(Call::Prepare { obj, value, group }),
            ),
            Msg::WaitFor { factories, timeout } => Step::quiet(
                Next::Call(Call::WaitFor { factories, timeout }),
            ),
            Msg::RegisterPausable(obj) => {
                self.register_pausable(obj);
                Step::done()
            },
            Msg::UnregisterPausable(obj) => {
                self.unregister_pausable(&obj.name);
                Step::done()
            },
            Msg::Input { prompt } => match self.hooks.input_handler {
                Some(handler) => Step::quiet(Next::Call(Call::Input { handler, prompt })),
                None => Step::refused("Msg::Input issued but no input handler installed"),
            },
            Msg::ReClass => {
                self.last_msg_result = MsgResult::EngineClass {
                    name: "cirrus.RunEngine".to_owned(),
                };
                Step::done()
            },
            Msg::Subscribe(cb) => {
                let id = self.subscribe(cb);
                self.temp_subscribers.push(id);
                self.last_msg_result = MsgResult::SubscriptionId { id };
                Step::done()
            },
            Msg::Unsubscribe(id) => {
                self.unsubscribe(id);
                self.temp_subscribers = retain_other(&self.temp_subscribers, id);
                Step::done()
            },
            Msg::Fail(reason) => Step::quiet(Next::Failed(CirrusError::Plan(reason))),
            Msg::Resume => {
                self.resume();
                Step::done()
            },
            Msg::InstallSuspender { id, suspender } => Step::quiet(
                Next::Call(Call::InstallSuspender { id, suspender }),
            ),
            Msg::RemoveSuspender { id } => {
                self.suspenders = retain_other(&self.suspenders, id);
                Step::done()
            },
            Msg::Rewindable(b) => {
                self.control.rewindable = b;
                Step::done()
            },
            Msg::Custom { name, payload } => match self.commands.get(&name) {
                Some(handler) => Step::quiet(
                    Next::Call(Call::Custom { handler: *handler, payload }),
                ),
                None => Step::refused(&join2("unknown custom command: ", &name)),
            },
            Msg::Publish(doc) => {
                let mut emit: Vec<Arc<Document>> = Vec::new();
                emit.push(doc);
                Step { emit, next: Next::Done(None) }
            },
            Msg::Null => Step::done(),
        }
    }

    fn on_create(&mut self, stream_name: String) -> (step: Step)
        ensures
            created(old(self)@, final(self)@, stream_name@, step),
    {
        match self.bundler.take() {
            None => Step::refused("Create with no open run"),
            Some(mut bundler) => {
                let r = bundler.create(stream_name);
                self.bundler = Some(bundler);
                match r {
                    Ok(()) => Step::done(),
                    Err(e) => Step::quiet(Next::Failed(e)),
                }
            },
        }
    }

    fn on_save(&mut self, now: Now) -> (step: Step)
        requires
            old(self)@.room(1),
        ensures
            bundle_saved(old(self)@, final(self)@, step, now.time),
    {
        match self.bundler.take() {
            None => Step::refused("Save with no open run"),
            Some(mut bundler) => {
                let r = bundler.save(now.time);
                self.bundler = Some(bundler);
                match r {
                    Ok(docs) => {
                        let ghost all = docs@;
                        let emit = share_all(docs);
                        proof {
                            assert(docs_of(emit@) =~= all);
                        }
                        Step { emit, next: Next::Done(None) }
                    },
                    Err(e) => Step::quiet(Next::Failed(e)),
                }
            },
        }
    }

    fn on_drop(&mut self) -> (step: Step)
        ensures
            bundle_dropped(old(self)@, final(self)@, step),
    {
        match self.bundler.take() {
            None => Step::refused("Drop with no open run"),
            Some(mut bundler) => {
                let r = bundler.drop_bundle();
                self.bundler = Some(bundler);
                match r {
                    Ok(()) => Step::done(),
                    Err(e) => Step::quiet(Next::Failed(e)),
                }
            },
        }
    }

    fn on_declare_stream(
        &mut self,
        stream_name: String,
        data_keys: &StrMap<DataKey>,
        now: Now,
    ) -> (step: Step)
        ensures
            stream_predeclared(
                old(self)@,
                final(self)@,
                stream_name@,
                data_keys@,
                step,
                now.time,
            ),
    {
        match self.bundler.take() {
            None => Step::refused("DeclareStream with no open run"),
            Some(mut bundler) => {
                let d = bundler.declare_stream(stream_name, data_keys.duplicate(), now.time);
                self.bundler = Some(bundler);
                let mut emit: Vec<Arc<Document>> = Vec::new();
                emit.push(Arc::new(Document::Descriptor(d)));
                Step { emit, next: Next::Done(None) }
            },
        }
    }

    fn on_unmonitor(&mut self, obj: &ObjRef) -> (step: Step)
        ensures
            done(step),
            final(self)@ == (EngineView {
                monitor_tasks: old(self)@.monitor_tasks.filter(
                    |t: MonitorView| t.obj_name != obj.name@,
                ),
                ..old(self)@
            }),
    {
        let keep = Ghost(|t: MonitorView| t.obj_name != obj.name@);
        let ghost all = self@.monitor_tasks;
        let mut left: Vec<MonitorTask> = Vec::new();
        std::mem::swap(&mut left, &mut self.monitor_tasks);
        let mut kept: Vec<MonitorTask> = Vec::new();
        let ghost mut n: int = 0;
        proof {
            reveal(Seq::filter);
            assert(all.take(0) =~= Seq::empty());
            assert(kept.deep_view() =~= Seq::empty());
            assert(left.deep_view() =~= all);
            assert(all.skip(0) =~= all);
        }
        while left.len() > 0
            invariant
                keep@ == (|t: MonitorView| t.obj_name != obj.name@),
                0 <= n <= all.len(),
                left.deep_view() == all.skip(n),
                kept.deep_view() == all.take(n).filter(keep@),
            decreases left@.len(),
        {
            assert(left.deep_view().len() == left@.len());
            let ghost left_before = left.deep_view();
            let ghost tasks = left@;
            let t = left.remove(0);
            proof {
                assert(left@ =~= tasks.drop_first());
                assert(left.deep_view() =~= left_before.drop_first());
                assert(t.deep_view() == left_before[0]);
                assert(left_before[0] == all[n]);
                lemma_filter_next(all, n, keep@);
                assert(left.deep_view() =~= all.skip(n + 1));
            }
            let ghost kept_before = kept.deep_view();
            if !str_eq(&t.obj_name, &obj.name) {
                kept.push(t);
                assert(kept.deep_view() =~= kept_before.push(all[n]));
            }
            proof {
                n = n + 1;
            }
        }
        proof {
            assert(left.deep_view().len() == left@.len());
            assert(all.take(n) =~= all);
        }
        self.monitor_tasks = kept;
        Step::done()
    }

    fn on_wait(&mut self, group: &str, error_on_timeout: bool, timeout: Option<Span>) -> (step:
        Step)
        ensures
            waiting(old(self)@, final(self)@, group@, error_on_timeout, timeout, step),
    {
        match self.groups.remove(group) {
            None => Step::done(),
            Some(members) => {
                assert(members.deep_view() =~= members@);
                if members.len() == 0 {
                    Step::done()
                } else {
                    Step::quiet(
                        Next::Call(Call::AwaitGroup { members, error_on_timeout, timeout }),
                    )
                }
            },
        }
    }

    fn on_checkpoint(&mut self, now: Now) -> (step: Step)
        ensures
            checkpointed(old(self)@, final(self)@, step, now),
    {
        self.msg_cache.clear();
        self.control.rewindable = true;
        let run_uid = self.current_run_uid();
        match self.hooks.checkpoint_hook {
            Some(hook) => Step::quiet(
                Next::Call(
                    Call::Checkpoint {
                        hook,
                        snapshot: CheckpointSnapshot { timestamp_ns: now.nanos, run_uid },
                    },
                ),
            ),
            None => self.checkpoint_recorded(),
        }
    }

    /// Goes on after the checkpoint hook: a deferred pause takes effect.
    pub fn checkpoint_recorded(&mut self) -> (step: Step)
        ensures
            done(step),
            final(self)@ == deferred_applied(old(self)@),
    {
        if self.control.deferred_pause {
            self.control.deferred_pause = false;
            self.control.is_paused = true;
        }
        Step::done()
    }
}

/// Puts documents behind shared handles.
fn share_all(docs: Vec<Document>) -> (emit: Vec<Arc<Document>>)
    ensures
        docs_of(emit@) == docs@,
{
    let ghost all = docs@;
    let mut left = docs;
    let mut emit: Vec<Arc<Document>> = Vec::new();
    let ghost mut n: int = 0;
    proof {
        assert(all.skip(0) =~= all);
        assert(docs_of(emit@) =~= all.take(0));
    }
    while left.len() > 0
        invariant
            0 <= n <= all.len(),
            left@ == all.skip(n),
            docs_of(emit@) == all.take(n),
        decreases left@.len(),
    {
        let d = left.remove(0);
        assert(d == all[n]);
        let ghost before = docs_of(emit@);
        emit.push(Arc::new(d));
        proof {
            assert(docs_of(emit@) =~= before.push(d));
            assert(left@ =~= all.skip(n + 1));
            assert(docs_of(emit@) =~= all.take(n + 1));
            n = n + 1;
        }
    }
    assert(all.take(n) =~= all);
    emit
}

} // verus!
