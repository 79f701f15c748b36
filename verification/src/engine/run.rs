//! Opening and closing of runs.

use std::sync::Arc;

use vstd::prelude::*;
use vstd::string::*;

use super::replay::region_ended;
use super::{
    Call, Control, EngineView, MonitorView, MsgResult, MsgResultView, Next, Now, RunEngine, Step,
};
use crate::bundler::{fresh_bundler, stream_declared, BundlerView, RunBundler};
use crate::compose::{event_counts, is_uid, BundleView, RunBundle};
use crate::documents::{plain_key, DataKey, DataKeyView, Document, Dtype};
use crate::error::{is_plan_error, CirrusError};
use crate::msg::RunMetadata;
use crate::strmap::StrMap;
use crate::text::{opt_text, str_eq};
use crate::value::{Double, Duplicate, Json, JsonView};

verus! {

/// The metadata of a run: what the message gives outranks what the run call gives, which
/// outranks the persistent metadata; a plan name fills the key `plan_name` if it is free.
pub open spec fn merged_md(
    persistent: Map<Seq<char>, JsonView>,
    per_call: Map<Seq<char>, JsonView>,
    extra: Map<Seq<char>, JsonView>,
    plan_name: Option<Seq<char>>,
) -> Map<Seq<char>, JsonView> {
    let m = persistent.union_prefer_right(per_call).union_prefer_right(extra);
    match plan_name {
        Some(name) => insert_free(m, "plan_name"@, JsonView::Str(name)),
        None => m,
    }
}

/// `m` with `v` under `k`, unless `k` is taken.
pub open spec fn insert_free(
    m: Map<Seq<char>, JsonView>,
    k: Seq<char>,
    v: JsonView,
) -> Map<Seq<char>, JsonView> {
    if m.dom().contains(k) {
        m
    } else {
        m.insert(k, v)
    }
}

/// The metadata with the scan id filled in, if its key is free.
pub open spec fn with_scan_id(m: Map<Seq<char>, JsonView>, id: u64) -> Map<Seq<char>, JsonView> {
    insert_free(m, "scan_id"@, JsonView::Integer(id as int))
}

/// The persistent metadata after a run with the scan id `id` was opened: under `scan_id` it holds
/// the id that follows. Nothing follows the largest.
pub open spec fn scan_id_kept(m: Map<Seq<char>, JsonView>, id: u64) -> Map<Seq<char>, JsonView> {
    if id < u64::MAX {
        m.insert("scan_id"@, JsonView::Integer(id + 1))
    } else {
        m
    }
}

/// The data keys of the stream of interruptions.
pub open spec fn interruption_keys() -> Map<Seq<char>, DataKeyView> {
    Map::<Seq<char>, DataKeyView>::empty().insert(
        "interruption"@,
        plain_key("RunEngine"@, Dtype::String, seq![]),
    )
}

/// Whether `d` is the start document of a run with the given metadata.
pub open spec fn is_start(
    d: Document,
    merged: Map<Seq<char>, JsonView>,
    id: u64,
    time: Double,
) -> bool {
    match d {
        Document::Start(s) => is_uid(s.uid@) && s.time == time && s.scan_id == Some(id)
            && s.hints is None && s.sample is None && s.extra@ == merged,
        _ => false,
    }
}

/// The bundler of a run that has just been opened.
pub open spec fn opened_bundler(start_uid: Seq<char>) -> BundlerView {
    fresh_bundler(BundleView { start_uid, streams: Map::empty() })
}

/// What opening a run with final metadata gives.
pub open spec fn run_opened(
    before: EngineView,
    after: EngineView,
    step: Step,
    merged: Map<Seq<char>, JsonView>,
    id: u64,
    time: Double,
) -> bool {
    let uid = (step.emit@[0])->Start_0.uid@;
    &&& step.emit@.len() >= 1
    &&& is_start(*step.emit@[0], merged, id, time)
    &&& if before.bundler is Some {
        &&& step.emit@.len() == 1
        &&& after == before
        &&& match step.next {
            Next::Failed(e) => is_plan_error(e, "OpenRun while a previous run is still open"@),
            _ => false,
        }
    } else {
        &&& match step.next {
            Next::Done(Some(u)) => u@ == uid,
            _ => false,
        }
        &&& after == EngineView {
            bundler: after.bundler,
            last_msg_result: MsgResultView::OpenRun { uid },
            md: scan_id_kept(before.md, id),
            ..before
        }
        &&& if before.control.record_interruptions {
            &&& step.emit@.len() == 2
            &&& after.bundler is Some
            &&& match *step.emit@[1] {
                Document::Descriptor(d) => d.data_keys@ == interruption_keys()
                    && stream_declared(
                    opened_bundler(uid),
                    after.bundler->0,
                    "interruptions"@,
                    d,
                    time,
                ),
                _ => false,
            }
        } else {
            &&& step.emit@.len() == 1
            &&& after.bundler == Some(opened_bundler(uid))
        }
    }
}

/// What comes of metadata that is past the validator.
pub open spec fn normalizing(
    before: EngineView,
    after: EngineView,
    step: Step,
    merged: Map<Seq<char>, JsonView>,
    id: u64,
    time: Double,
) -> bool {
    match before.hooks.md_normalizer {
        Some(n) => {
            &&& after == before
            &&& step.emit@.len() == 0
            &&& match step.next {
                Next::Call(Call::Normalize { normalizer, merged: m, scan_id }) => normalizer == n
                    && m@ == merged && scan_id == id,
                _ => false,
            }
        },
        None => run_opened(before, after, step, merged, id, time),
    }
}

/// What comes of metadata whose scan id is settled.
pub open spec fn validating(
    before: EngineView,
    after: EngineView,
    step: Step,
    merged: Map<Seq<char>, JsonView>,
    id: u64,
    time: Double,
) -> bool {
    match before.hooks.md_validator {
        Some(v) => {
            &&& after == before
            &&& step.emit@.len() == 0
            &&& match step.next {
                Next::Call(Call::Validate { validator, merged: m, scan_id }) => validator == v
                    && m@ == merged && scan_id == id,
                _ => false,
            }
        },
        None => normalizing(before, after, step, merged, id, time),
    }
}

/// Whether a scan id can be found: one that is neither given nor asked for is counted up.
pub open spec fn can_number(e: EngineView, meta: RunMetadata) -> bool {
    meta.scan_id is None && e.hooks.scan_id_source is None ==> e.control.scan_id < u64::MAX
}

/// What a request to open a run gives.
pub open spec fn opening(
    before: EngineView,
    after: EngineView,
    step: Step,
    meta: RunMetadata,
    time: Double,
) -> bool {
    let merged = merged_md(before.md, before.per_call_md, meta.extra@, opt_text(meta.plan_name));
    match (meta.scan_id, before.hooks.scan_id_source) {
        (Some(id), _) => validating(
            EngineView { control: Control { scan_id: id, ..before.control }, ..before },
            after,
            step,
            with_scan_id(merged, id),
            id,
            time,
        ),
        (None, Some(src)) => {
            &&& after == before
            &&& step.emit@.len() == 0
            &&& match step.next {
                Next::Call(Call::ScanIdSource { source, merged: m }) => source == src && m@
                    == merged,
                _ => false,
            }
        },
        (None, None) => {
            let id = (before.control.scan_id + 1) as u64;
            validating(
                EngineView { control: Control { scan_id: id, ..before.control }, ..before },
                after,
                step,
                with_scan_id(merged, id),
                id,
                time,
            )
        },
    }
}

/// Whether a monitor of the run `uid` is among `tasks`.
pub open spec fn monitored(tasks: Seq<MonitorView>, uid: Seq<char>) -> bool {
    exists|i: int| 0 <= i < tasks.len() && (#[trigger] tasks[i]).run_uid == uid
}

/// What closing the open run gives; nothing happens when no run is open. A rewindable region does
/// not outlast its run.
pub open spec fn run_closed(
    before: EngineView,
    after: EngineView,
    emit: Seq<Arc<Document>>,
    exit_status: Seq<char>,
    reason: Option<Seq<char>>,
    time: Double,
) -> bool {
    match before.bundler {
        None => emit.len() == 0 && after == before,
        Some(b) => {
            &&& emit.len() == 1
            &&& is_stop(*emit[0], b.bundle, exit_status, reason, time)
            &&& after == region_ended(
                EngineView {
                    bundler: None,
                    retired: if monitored(before.monitor_tasks, b.bundle.start_uid) {
                        before.retired.insert(b.bundle.start_uid, b.bundle)
                    } else {
                        before.retired
                    },
                    ..before
                },
            )
        },
    }
}

/// Whether `d` is the stop document of the run that `b` composes.
pub open spec fn is_stop(
    d: Document,
    b: BundleView,
    exit_status: Seq<char>,
    reason: Option<Seq<char>>,
    time: Double,
) -> bool {
    match d {
        Document::Stop(s) => is_uid(s.uid@) && s.run_start@ == b.start_uid && s.time == time
            && s.exit_status@ == exit_status && opt_text(s.reason) == reason && s.num_events@
            == event_counts(b),
        _ => false,
    }
}

impl RunEngine {
    /// Merges the metadata of a run and settles its scan id.
    pub(super) fn open_run(&mut self, meta: &RunMetadata, now: Now) -> (step: Step)
        requires
            can_number(old(self)@, *meta),
        ensures
            opening(old(self)@, final(self)@, step, *meta, now.time),
    {
        let mut merged = self.md.duplicate();
        merged.extend(self.per_call_md.duplicate());
        merged.extend(meta.extra.duplicate());
        match &meta.plan_name {
            Some(name) => {
                merged.insert_if_absent("plan_name".to_owned(), Json::Str(name.clone()));
            },
            None => {},
        }
        match (meta.scan_id, self.hooks.scan_id_source) {
            (Some(id), _) => {
                self.control.scan_id = id;
                self.scan_id_settled(merged, id, now)
            },
            (None, Some(source)) => Step::quiet(
                Next::Call(Call::ScanIdSource { source, merged }),
            ),
            (None, None) => {
                let id: u64 = self.control.scan_id + 1;
                self.control.scan_id = id;
                self.scan_id_settled(merged, id, now)
            },
        }
    }

    /// Takes the answer of the scan id source.
    pub fn scan_id_chosen(
        &mut self,
        merged: StrMap<Json>,
        answer: Result<u64, CirrusError>,
        now: Now,
    ) -> (step: Step)
        ensures
            match answer {
                Ok(id) => validating(
                    old(self)@,
                    final(self)@,
                    step,
                    with_scan_id(merged@, id),
                    id,
                    now.time,
                ),
                Err(e) => super::quiet(step, Next::Failed(e)) && final(self)@ == old(self)@,
            },
    {
        match answer {
            Ok(id) => self.scan_id_settled(merged, id, now),
            Err(e) => Step::quiet(Next::Failed(e)),
        }
    }

    fn scan_id_settled(&mut self, merged: StrMap<Json>, id: u64, now: Now) -> (step: Step)
        ensures
            validating(
                old(self)@,
                final(self)@,
                step,
                with_scan_id(merged@, id),
                id,
                now.time,
            ),
    {
        let mut merged = merged;
        merged.insert_if_absent("scan_id".to_owned(), Json::UInt(id));
        match self.hooks.md_validator {
            Some(validator) => Step::quiet(
                Next::Call(Call::Validate { validator, merged, scan_id: id }),
            ),
            None => self.metadata_valid(merged, id, now),
        }
    }

    /// Takes the answer of the metadata validator.
    pub fn md_validated(
        &mut self,
        merged: StrMap<Json>,
        scan_id: u64,
        answer: Result<(), CirrusError>,
        now: Now,
    ) -> (step: Step)
        ensures
            match answer {
                Ok(()) => normalizing(
                    old(self)@,
                    final(self)@,
                    step,
                    merged@,
                    scan_id,
                    now.time,
                ),
                Err(e) => super::quiet(step, Next::Failed(e)) && final(self)@ == old(self)@,
            },
    {
        match answer {
            Ok(()) => self.metadata_valid(merged, scan_id, now),
            Err(e) => Step::quiet(Next::Failed(e)),
        }
    }

    fn metadata_valid(&mut self, merged: StrMap<Json>, id: u64, now: Now) -> (step: Step)
        ensures
            normalizing(old(self)@, final(self)@, step, merged@, id, now.time),
    {
        match self.hooks.md_normalizer {
            Some(normalizer) => Step::quiet(
                Next::Call(Call::Normalize { normalizer, merged, scan_id: id }),
            ),
            None => self.metadata_final(merged, id, now),
        }
    }

    /// Takes the metadata that the normalizer gives back.
    pub fn md_normalized(
        &mut self,
        scan_id: u64,
        answer: Result<StrMap<Json>, CirrusError>,
        now: Now,
    ) -> (step: Step)
        ensures
            match answer {
                Ok(merged) => run_opened(
                    old(self)@,
                    final(self)@,
                    step,
                    merged@,
                    scan_id,
                    now.time,
                ),
                Err(e) => super::quiet(step, Next::Failed(e)) && final(self)@ == old(self)@,
            },
    {
        match answer {
            Ok(merged) => self.metadata_final(merged, scan_id, now),
            Err(e) => Step::quiet(Next::Failed(e)),
        }
    }

    fn metadata_final(&mut self, merged: StrMap<Json>, id: u64, now: Now) -> (step: Step)
        ensures
            run_opened(old(self)@, final(self)@, step, merged@, id, now.time),
    {
        let mut start = RunBundle::start(Some(id), None, now.time);
        start.extra = merged;
        let bundle = RunBundle::open(&start);
        let uid = start.uid.clone();
        let mut emit: Vec<Arc<Document>> = Vec::new();
        emit.push(Arc::new(Document::Start(start)));
        if self.bundler.is_some() {
            return Step {
                emit,
                next: Next::Failed(
                    CirrusError::plan("OpenRun while a previous run is still open"),
                ),
            };
        }
        let mut bundler = RunBundler::new(bundle);
        if self.control.record_interruptions {
            let mut keys: StrMap<DataKey> = StrMap::new();
            keys.insert(
                "interruption".to_owned(),
                DataKey::plain("RunEngine".to_owned(), Dtype::String, Vec::new()),
            );
            let descriptor = bundler.declare_stream("interruptions".to_owned(), keys, now.time);
            emit.push(Arc::new(Document::Descriptor(descriptor)));
        }
        self.bundler = Some(bundler);
        if id < u64::MAX {
            self.md.insert("scan_id".to_owned(), Json::UInt(id + 1));
        }
        self.last_msg_result = MsgResult::OpenRun { uid: uid.clone() };
        Step { emit, next: Next::Done(Some(uid)) }
    }

    /// Whether a monitor of the run `uid` is live.
    fn has_monitor(&self, uid: &str) -> (yes: bool)
        ensures
            yes == monitored(self@.monitor_tasks, uid@),
    {
        let mut i: usize = 0;
        while i < self.monitor_tasks.len()
            invariant
                i <= self.monitor_tasks.len(),
                forall|k: int| 0 <= k < i ==> (#[trigger] self@.monitor_tasks[k]).run_uid != uid@,
            decreases self.monitor_tasks.len() - i,
        {
            assert(self@.monitor_tasks[i as int].run_uid == self.monitor_tasks@[i as int].run_uid@);
            if str_eq(&self.monitor_tasks[i].run_uid, uid) {
                return true;
            }
            i += 1;
        }
        false
    }

    /// Closes the open run, and with it the rewindable region; nothing happens when no run is
    /// open.
    pub(super) fn close_run_if_open(
        &mut self,
        exit_status: &str,
        reason: Option<String>,
        now: Now,
    ) -> (emit: Vec<Arc<Document>>)
        ensures
            run_closed(
                old(self)@,
                final(self)@,
                emit@,
                exit_status@,
                opt_text(reason),
                now.time,
            ),
    {
        let mut emit: Vec<Arc<Document>> = Vec::new();
        match self.bundler.take() {
            None => {},
            Some(bundler) => {
                let stop = bundler.compose().stop(exit_status, reason, now.time);
                emit.push(Arc::new(Document::Stop(stop)));
                let uid = bundler.start_uid().to_owned();
                if self.has_monitor(&uid) {
                    self.retired.insert(uid, bundler.into_bundle());
                }
                self.end_region();
            },
        }
        emit
    }
}

} // verus!
