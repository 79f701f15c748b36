//! The life of one run call: its beginning, its end, and the cleanup after it.

use std::sync::Arc;

use vstd::prelude::*;
use vstd::string::*;

use super::replay::{lists_values, region_ended};
use super::run::run_closed;
use super::{Control, EngineView, Now, RunEngine, RunOptions, RunResult};
use crate::documents::Document;
use crate::error::{error_text, CirrusError, Span};
use crate::msg::ObjRef;
use crate::strmap::{distinct_keys, map_of, StrMap};

verus! {

/// The flags at the beginning of a run call: what a finished call left is reset.
pub open spec fn started(c: Control) -> Control {
    Control {
        is_running: true,
        is_aborting: false,
        is_halting: false,
        is_stopping: false,
        is_paused: false,
        sigint_count: 0,
        cancelled: false,
        ..c
    }
}

/// The `n` ids that follow `counter`.
pub open spec fn next_ids(counter: u64, n: nat) -> Seq<u64> {
    Seq::new(n, |i: int| (counter + 1 + i) as u64)
}

/// The engine after the options of a run call were staged.
pub open spec fn options_staged(before: EngineView, after: EngineView, opts: RunOptions) -> bool {
    let n = opts.subs@.len();
    let ids = next_ids(before.control.sub_counter, n);
    after == EngineView {
        per_call_md: opts.md@,
        staged_temp_subs: ids,
        control: Control { sub_counter: (before.control.sub_counter + n) as u64, ..before.control },
        subscribers: before.subscribers + Seq::new(n, |i: int| (ids[i], opts.subs@[i])),
        ..before
    }
}

/// The engine at the beginning of a run call: the staged temporary subscriptions become those of
/// the call.
pub open spec fn begun(before: EngineView) -> EngineView {
    EngineView {
        control: started(before.control),
        temp_subscribers: before.temp_subscribers + before.staged_temp_subs,
        staged_temp_subs: seq![],
        ..before
    }
}

/// The subscribers whose id is not among `ids`.
pub open spec fn without_ids(subs: Seq<(u64, u64)>, ids: Seq<u64>) -> Seq<(u64, u64)> {
    subs.filter(|s: (u64, u64)| !ids.contains(s.0))
}

/// The devices to attend to after a run call: movables and flyers are stopped, then staged
/// devices are unstaged in order. After a halt there are none.
#[derive(Debug)]
pub struct Cleanup {
    /// Movables to stop.
    pub movables: Vec<ObjRef>,
    /// Flyers to stop.
    pub flyables: Vec<ObjRef>,
    /// Devices to unstage.
    pub staged: Vec<ObjRef>,
}

/// The engine once the registers of a run call are emptied.
pub open spec fn cleaned(before: EngineView) -> EngineView {
    EngineView {
        staged: seq![],
        movable_objs_touched: Map::empty(),
        flyable_objs_touched: Map::empty(),
        temp_subscribers: seq![],
        pausables: Map::empty(),
        suspenders: seq![],
        monitor_tasks: seq![],
        retired: Map::empty(),
        subscribers: without_ids(before.subscribers, before.temp_subscribers),
        ..before
    }
}

/// The engine once a run call is over.
pub open spec fn ended(before: EngineView) -> EngineView {
    region_ended(
        EngineView {
            control: Control { is_running: false, ..before.control },
            per_call_md: Map::empty(),
            ..before
        },
    )
}

/// Whether `c` names the devices to attend to after a run call. A halt skips them all.
pub open spec fn attends(before: EngineView, c: Cleanup) -> bool {
    if before.control.is_halting {
        c.movables@.len() == 0 && c.flyables@.len() == 0 && c.staged@.len() == 0
    } else {
        &&& c.staged@ == before.staged
        &&& lists_values(c.movables@, before.movable_objs_touched)
        &&& lists_values(c.flyables@, before.flyable_objs_touched)
    }
}

/// Whether the flags end the message loop.
pub open spec fn interrupted(c: Control) -> bool {
    c.is_halting || c.is_stopping || c.is_aborting
}

/// Whether a failure ends the message loop as a failure. That a wait was cut short is none where
/// an abort, a stop or a halt did so.
pub open spec fn fails(failure: Option<CirrusError>, c: Control) -> bool {
    failure is Some && !(failure->0 is Cancelled && interrupted(c))
}

/// What the end of the message loop gives.
pub open spec fn loop_finished(
    before: EngineView,
    after: EngineView,
    run_uid: Option<String>,
    failure: Option<CirrusError>,
    now: Now,
    result: RunResult,
    emit: Seq<Arc<Document>>,
) -> bool {
    let c = before.control;
    let status = result.exit_status@;
    &&& result.run_uid == run_uid
    &&& if fails(failure, c) {
        &&& status == "fail"@
        &&& run_closed(
            before,
            after,
            emit,
            "fail"@,
            Some(error_text(failure->0)),
            now.time,
        )
    } else if c.is_halting {
        &&& status == "halt"@
        &&& run_closed(before, after, emit, "halt"@, None, now.time)
    } else if c.is_stopping {
        &&& status == "success"@
        &&& run_closed(before, after, emit, "success"@, Some("user-requested stop"@), now.time)
    } else if c.is_aborting {
        &&& status == "abort"@
        &&& run_closed(before, after, emit, "abort"@, Some("user-requested abort"@), now.time)
    } else {
        &&& status == (if before.bundler is Some || run_uid is Some {
            "success"@
        } else {
            "no-run"@
        })
        &&& run_closed(before, after, emit, "success"@, None, now.time)
    }
}

/// Keeping one more subscriber, or not.
proof fn lemma_without_ids_push(all: Seq<(u64, u64)>, i: int, ids: Seq<u64>)
    requires
        0 <= i < all.len(),
    ensures
        without_ids(all.take(i + 1), ids) == if !ids.contains(all[i].0) {
            without_ids(all.take(i), ids).push(all[i])
        } else {
            without_ids(all.take(i), ids)
        },
{
    reveal(Seq::filter);
    assert(all.take(i + 1).drop_last() =~= all.take(i));
    assert(all.take(i + 1).last() == all[i]);
}

/// Whether `id` is among `ids`.
fn has_id(ids: &Vec<u64>, id: u64) -> (yes: bool)
    ensures
        yes == ids@.contains(id),
{
    let mut i: usize = 0;
    while i < ids.len()
        invariant
            i <= ids.len(),
            forall|k: int| 0 <= k < i ==> ids@[k] != id,
        decreases ids.len() - i,
    {
        if ids[i] == id {
            assert(ids@[i as int] == id);
            return true;
        }
        i += 1;
    }
    false
}

impl RunEngine {
    /// Whether the counter of subscriptions has room for the subscribers of a run call.
    pub fn can_stage(&self, opts: &RunOptions) -> (yes: bool)
        ensures
            yes == (self@.control.sub_counter + opts.subs@.len() <= u64::MAX),
    {
        opts.subs.len() as u64 <= u64::MAX - self.control.sub_counter
    }

    /// Stages the metadata and the temporary subscribers of the next run call.
    pub fn stage_options(&mut self, opts: RunOptions)
        requires
            old(self)@.control.sub_counter + opts.subs@.len() <= u64::MAX,
        ensures
            options_staged(old(self)@, final(self)@, opts),
    {
        let ghost before = self@;
        let ghost subs = opts.subs@;
        let ghost counter = self@.control.sub_counter;
        let ghost ids = next_ids(counter, subs.len());
        self.per_call_md = opts.md;
        let mut staged: Vec<u64> = Vec::new();
        let mut i: usize = 0;
        proof {
            assert(self@.subscribers =~= before.subscribers + Seq::new(
                0,
                |k: int| (ids[k], subs[k]),
            ));
        }
        while i < opts.subs.len()
            invariant
                i <= subs.len(),
                opts.subs@ == subs,
                counter + subs.len() <= u64::MAX,
                ids == next_ids(counter, subs.len()),
                before.control.sub_counter == counter,
                staged@ == ids.take(i as int),
                self@ == (EngineView {
                    per_call_md: opts.md@,
                    control: (Control { sub_counter: (counter + i) as u64, ..before.control }),
                    subscribers: before.subscribers + Seq::new(
                        i as nat,
                        |k: int| (ids[k], subs[k]),
                    ),
                    ..before
                }),
            decreases subs.len() - i,
        {
            let id = self.subscribe(opts.subs[i]);
            staged.push(id);
            i += 1;
            proof {
                assert(staged@ =~= ids.take(i as int));
                assert(self@.subscribers =~= before.subscribers + Seq::new(
                    i as nat,
                    |k: int| (ids[k], subs[k]),
                ));
            }
        }
        self.staged_temp_subs = staged;
        proof {
            assert(self@.staged_temp_subs =~= ids);
        }
    }

    /// Begins a run call: flags that an earlier call left are reset, and the staged temporary
    /// subscribers become those of this call.
    pub fn begin_run(&mut self)
        ensures
            final(self)@ == begun(old(self)@),
    {
        self.control.is_running = true;
        self.control.is_aborting = false;
        self.control.is_halting = false;
        self.control.is_stopping = false;
        self.control.is_paused = false;
        self.control.sigint_count = 0;
        self.control.cancelled = false;
        self.temp_subscribers.append(&mut self.staged_temp_subs);
        assert(self@.staged_temp_subs =~= Seq::empty());
        assert(self@.temp_subscribers =~= old(self)@.temp_subscribers
            + old(self)@.staged_temp_subs);
    }

    /// Whether the flags end the message loop.
    pub fn is_interrupted(&self) -> (yes: bool)
        ensures
            yes == interrupted(self@.control),
    {
        self.control.is_halting || self.control.is_stopping || self.control.is_aborting
    }

    /// Ends the message loop: closes the open run with the status that the failure, the flags
    /// or the natural end call for. Where an abort, a stop or a halt cut a wait short, the flags
    /// decide.
    pub fn finish_loop(
        &mut self,
        run_uid: Option<String>,
        failure: Option<CirrusError>,
        now: Now,
    ) -> (r: (RunResult, Vec<Arc<Document>>))
        ensures
            loop_finished(old(self)@, final(self)@, run_uid, failure, now, r.0, r.1@),
    {
        let failure = match failure {
            Some(CirrusError::Cancelled) if self.is_interrupted() => None,
            f => f,
        };
        match failure {
            Some(e) => {
                let emit = self.close_run_if_open("fail", Some(e.describe()), now);
                (RunResult { run_uid, exit_status: "fail".to_owned() }, emit)
            },
            None => {
                if self.control.is_halting {
                    let emit = self.close_run_if_open("halt", None, now);
                    (RunResult { run_uid, exit_status: "halt".to_owned() }, emit)
                } else if self.control.is_stopping {
                    let emit = self.close_run_if_open(
                        "success",
                        Some("user-requested stop".to_owned()),
                        now,
                    );
                    (RunResult { run_uid, exit_status: "success".to_owned() }, emit)
                } else if self.control.is_aborting {
                    let emit = self.close_run_if_open(
                        "abort",
                        Some("user-requested abort".to_owned()),
                        now,
                    );
                    (RunResult { run_uid, exit_status: "abort".to_owned() }, emit)
                } else {
                    let exit_status = if self.bundler.is_some() || run_uid.is_some() {
                        "success".to_owned()
                    } else {
                        "no-run".to_owned()
                    };
                    let emit = self.close_run_if_open("success", None, now);
                    (RunResult { run_uid, exit_status }, emit)
                }
            },
        }
    }

    /// Ends a run call that took too long: its operations are cancelled.
    pub fn loop_timed_out(&mut self, limit: Span) -> (e: CirrusError)
        ensures
            e == CirrusError::Timeout(limit),
            final(self)@ == (EngineView {
                control: (Control { cancelled: true, ..old(self)@.control }),
                ..old(self)@
            }),
    {
        self.control.cancelled = true;
        CirrusError::Timeout(limit)
    }

    /// Empties the registers of a run call, removes its temporary subscribers, and names the
    /// devices to attend to: none after a halt, which leaves devices as they are.
    pub fn start_cleanup(&mut self) -> (c: Cleanup)
        ensures
            final(self)@ == cleaned(old(self)@),
            attends(old(self)@, c),
    {
        let movables = self.movable_objs_touched.values();
        let flyables = self.flyable_objs_touched.values();
        proof {
            let p1 = self.movable_objs_touched.pairs();
            assert(distinct_keys(p1) && map_of(p1) == old(self)@.movable_objs_touched);
            let p2 = self.flyable_objs_touched.pairs();
            assert(distinct_keys(p2) && map_of(p2) == old(self)@.flyable_objs_touched);
        }
        let ghost all = self.subscribers@;
        let ghost ids = self.temp_subscribers@;
        let mut kept: Vec<(u64, u64)> = Vec::new();
        let mut i: usize = 0;
        proof {
            reveal(Seq::filter);
            assert(all.take(0) =~= Seq::empty());
        }
        while i < self.subscribers.len()
            invariant
                i <= all.len(),
                self.subscribers@ == all,
                self.temp_subscribers@ == ids,
                *self == *old(self),
                kept@ == without_ids(all.take(i as int), ids),
            decreases all.len() - i,
        {
            let s = self.subscribers[i];
            proof {
                lemma_without_ids_push(all, i as int, ids);
            }
            if !has_id(&self.temp_subscribers, s.0) {
                kept.push(s);
            }
            i += 1;
        }
        assert(all.take(all.len() as int) =~= all);
        let mut staged: Vec<ObjRef> = Vec::new();
        std::mem::swap(&mut staged, &mut self.staged);
        self.subscribers = kept;
        self.movable_objs_touched = StrMap::new();
        self.flyable_objs_touched = StrMap::new();
        self.temp_subscribers = Vec::new();
        self.pausables = StrMap::new();
        self.suspenders = Vec::new();
        self.monitor_tasks = Vec::new();
        self.retired = StrMap::new();
        assert(self@.monitor_tasks =~= Seq::empty());
        if self.control.is_halting {
            Cleanup { movables: Vec::new(), flyables: Vec::new(), staged: Vec::new() }
        } else {
            Cleanup { movables, flyables, staged }
        }
    }

    /// Ends a run call, after its cleanup, and with it the rewindable region.
    pub fn end_run(&mut self)
        ensures
            final(self)@ == ended(old(self)@),
    {
        self.control.is_running = false;
        self.per_call_md = StrMap::new();
        self.end_region();
    }
}

} // verus!
