//! Delivery of messages: the pause gate, the replay queue and the rewind cache.

use std::sync::Arc;

use vstd::prelude::*;
use vstd::string::*;

use super::{Control, EngineView, Now, RunEngine};
use crate::bundler::BundlerView;
use crate::compose::event_composed;
use crate::documents::{Document, Event};
use crate::msg::{cacheable, Msg, ObjRef, ObjView};
use crate::strmap::{distinct_keys, map_of, StrMap};
use crate::value::{Double, Json, JsonView};

verus! {

/// Where the next message comes from.
#[derive(Debug)]
pub enum Fetch {
    /// The engine is paused: pass the pause gate, then fetch again.
    Paused,
    /// There is no next message: the run call was aborted, stopped or halted.
    Ended,
    /// A message to deliver again.
    Replay(Msg),
    /// The plan gives the next message.
    Plan,
}

/// What fetching the next message gives.
pub open spec fn fetched(before: EngineView, after: EngineView, f: Fetch) -> bool {
    if before.control.is_aborting {
        f is Ended && after == before
    } else if before.control.is_paused {
        f is Paused && after == before
    } else if before.replay_queue.len() > 0 {
        &&& f == Fetch::Replay(before.replay_queue[0])
        &&& after == replayed(before)
    } else {
        f is Plan && after == before
    }
}

/// The engine once a rewindable region is over: nothing is recorded any more, and nothing is left
/// to replay.
pub open spec fn region_ended(before: EngineView) -> EngineView {
    EngineView {
        msg_cache: seq![],
        replay_queue: seq![],
        control: Control { rewindable: false, ..before.control },
        ..before
    }
}

/// The engine after the plan yielded `m`: inside a rewindable region a cacheable message is
/// recorded.
pub open spec fn recorded(before: EngineView, m: Msg) -> EngineView {
    if before.control.rewindable && cacheable(m) {
        EngineView { msg_cache: before.msg_cache.push(m), ..before }
    } else {
        before
    }
}

/// The engine after the first message to replay was delivered: it is taken off its queue, and
/// recorded again.
pub open spec fn replayed(before: EngineView) -> EngineView {
    recorded(
        EngineView { replay_queue: before.replay_queue.drop_first(), ..before },
        before.replay_queue[0],
    )
}

/// The engine after a resume: what was recorded is queued for replay, ahead of what was still to
/// be replayed. A message that is replayed is recorded again.
pub open spec fn rewound(before: EngineView) -> EngineView {
    EngineView {
        replay_queue: before.msg_cache + before.replay_queue,
        msg_cache: seq![],
        ..before
    }
}

/// Whether `v` lists the devices of `m`, one for each key.
pub open spec fn lists_values(v: Seq<ObjRef>, m: Map<Seq<char>, ObjView>) -> bool {
    exists|pairs: Seq<(Seq<char>, ObjView)>|
        {
            &&& #[trigger] distinct_keys(pairs)
            &&& map_of(pairs) == m
            &&& v.len() == pairs.len()
            &&& forall|i: int| 0 <= i < v.len() ==> (#[trigger] v[i]).deep_view() == pairs[i].1
        }
}

/// The devices to quiet when the engine enters the pause gate: the movables and flyers are
/// stopped, then the pausables are paused.
#[derive(Debug)]
pub struct PauseActions {
    /// Movables to stop.
    pub movables: Vec<ObjRef>,
    /// Flyers to stop.
    pub flyables: Vec<ObjRef>,
    /// Devices to pause.
    pub pausables: Vec<ObjRef>,
}

/// What entering the pause gate gives.
pub open spec fn gate_entered(before: EngineView, after: EngineView, actions: PauseActions) -> bool {
    &&& after == EngineView { monitor_tasks: seq![], ..before }
    &&& lists_values(actions.movables@, before.movable_objs_touched)
    &&& lists_values(actions.flyables@, before.flyable_objs_touched)
    &&& lists_values(actions.pausables@, before.pausables)
}

/// What leaving the pause gate gives.
pub open spec fn gate_left(before: EngineView, after: EngineView, pausables: Seq<ObjRef>) -> bool {
    &&& after == rewound(before)
    &&& lists_values(pausables, before.pausables)
}

/// The JSON object field of an interruption.
pub open spec fn interruption_data(content: Seq<char>) -> Map<Seq<char>, JsonView> {
    Map::<Seq<char>, JsonView>::empty().insert("interruption"@, JsonView::Str(content))
}

/// The timestamps of an interruption.
pub open spec fn interruption_stamps(time: Double) -> Map<Seq<char>, Double> {
    Map::<Seq<char>, Double>::empty().insert("interruption"@, time)
}

/// Whether interruptions are recorded now: recording is on, and the open run declared the
/// stream of interruptions.
pub open spec fn recording(e: EngineView) -> bool {
    &&& e.control.record_interruptions
    &&& e.bundler matches Some(b) && b.described("interruptions"@) is Some
        && b.bundle.streams.dom().contains("interruptions"@)
}

/// What recording an interruption gives.
pub open spec fn interruption_recorded(
    before: EngineView,
    after: EngineView,
    content: Seq<char>,
    time: Double,
    doc: Option<Arc<Document>>,
) -> bool {
    match doc {
        None => !recording(before) && after == before,
        Some(d) => {
            &&& recording(before)
            &&& after.bundler is Some
            &&& after == EngineView { bundler: after.bundler, ..before }
            &&& after.bundler->0 == BundlerView {
                bundle: after.bundler->0.bundle,
                ..before.bundler->0
            }
            &&& match *d {
                Document::Event(e) => event_composed(
                    before.bundler->0.bundle,
                    after.bundler->0.bundle,
                    "interruptions"@,
                    e,
                ) && e.time == time && e.data@ == interruption_data(content) && e.timestamps@
                    == interruption_stamps(time),
                _ => false,
            }
        },
    }
}

impl RunEngine {
    /// Ends the rewindable region, if there is one.
    pub(super) fn end_region(&mut self)
        ensures
            final(self)@ == region_ended(old(self)@),
    {
        self.msg_cache = Vec::new();
        self.replay_queue = Vec::new();
        self.control.rewindable = false;
        assert(self@.msg_cache =~= Seq::empty());
        assert(self@.replay_queue =~= Seq::empty());
    }

    /// Says where the next message comes from; a message to replay is taken off its queue and
    /// recorded again.
    pub fn next_msg(&mut self) -> (f: Fetch)
        ensures
            fetched(old(self)@, final(self)@, f),
    {
        if self.control.is_aborting {
            return Fetch::Ended;
        }
        if self.control.is_paused {
            return Fetch::Paused;
        }
        if self.replay_queue.len() > 0 {
            let m = self.replay_queue.remove(0);
            assert(self@.replay_queue =~= old(self)@.replay_queue.drop_first());
            self.plan_yielded(&m);
            return Fetch::Replay(m);
        }
        Fetch::Plan
    }

    /// Takes note of a message that the plan yielded: inside a rewindable region it is recorded if
    /// it can be delivered again.
    pub fn plan_yielded(&mut self, m: &Msg)
        ensures
            final(self)@ == recorded(old(self)@, *m),
    {
        if self.control.rewindable && m.is_cacheable() {
            self.msg_cache.push(m.clone());
        }
    }

    /// Enters the pause gate: the monitors end, and the devices to quiet are named.
    pub fn on_pause_enter(&mut self) -> (actions: PauseActions)
        ensures
            gate_entered(old(self)@, final(self)@, actions),
    {
        self.monitor_tasks.clear();
        assert(self@.monitor_tasks =~= Seq::empty());
        let movables = self.movable_objs_touched.values();
        let flyables = self.flyable_objs_touched.values();
        let pausables = self.pausables.values();
        proof {
            let p1 = self.movable_objs_touched.pairs();
            assert(distinct_keys(p1) && map_of(p1) == old(self)@.movable_objs_touched);
            let p2 = self.flyable_objs_touched.pairs();
            assert(distinct_keys(p2) && map_of(p2) == old(self)@.flyable_objs_touched);
            let p3 = self.pausables.pairs();
            assert(distinct_keys(p3) && map_of(p3) == old(self)@.pausables);
        }
        PauseActions { movables, flyables, pausables }
    }

    /// Leaves the pause gate: the recorded messages are queued for replay, and the devices to
    /// resume are named.
    pub fn on_resume(&mut self) -> (pausables: Vec<ObjRef>)
        ensures
            gate_left(old(self)@, final(self)@, pausables@),
    {
        let mut queue: Vec<Msg> = Vec::new();
        std::mem::swap(&mut queue, &mut self.msg_cache);
        queue.append(&mut self.replay_queue);
        self.replay_queue = queue;
        assert(self@.msg_cache =~= Seq::empty());
        assert(self@.replay_queue =~= old(self)@.msg_cache + old(self)@.replay_queue);
        let pausables = self.pausables.values();
        proof {
            let p = self.pausables.pairs();
            assert(distinct_keys(p) && map_of(p) == old(self)@.pausables);
        }
        pausables
    }

    /// Composes an event on the stream of interruptions. Nothing happens when recording is
    /// off, when no run is open, or when the run was opened before recording was turned on.
    pub fn record_interruption(&mut self, content: &str, now: Now) -> (doc: Option<Arc<Document>>)
        requires
            old(self)@.room(1),
        ensures
            interruption_recorded(old(self)@, final(self)@, content@, now.time, doc),
    {
        if !self.control.record_interruptions {
            return None;
        }
        match self.bundler.take() {
            None => None,
            Some(mut bundler) => {
                if bundler.descriptor_uid("interruptions").is_none() {
                    self.bundler = Some(bundler);
                    return None;
                }
                let mut data: StrMap<Json> = StrMap::new();
                data.insert("interruption".to_owned(), Json::Str(content.to_owned()));
                let mut timestamps: StrMap<Double> = StrMap::new();
                timestamps.insert("interruption".to_owned(), now.time);
                let event = bundler.event("interruptions", data, timestamps, now.time);
                self.bundler = Some(bundler);
                match event {
                    Some(e) => Some(Arc::new(Document::Event(e))),
                    None => None,
                }
            },
        }
    }

    /// Records that the engine paused.
    pub fn record_pause(&mut self, now: Now) -> (doc: Option<Arc<Document>>)
        requires
            old(self)@.room(1),
        ensures
            interruption_recorded(old(self)@, final(self)@, "pause"@, now.time, doc),
    {
        self.record_interruption("pause", now)
    }

    /// Records that the engine resumed.
    pub fn record_resume(&mut self, now: Now) -> (doc: Option<Arc<Document>>)
        requires
            old(self)@.room(1),
        ensures
            interruption_recorded(old(self)@, final(self)@, "resume"@, now.time, doc),
    {
        self.record_interruption("resume", now)
    }
}

} // verus!
