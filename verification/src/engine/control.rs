//! Control of the engine from outside: pause, resume, abort, halt, stop, signals, metadata,
//! subscribers and hooks.

use vstd::prelude::*;
use vstd::string::*;

use super::{Control, EngineRunState, EngineView, Hooks, MsgResult, MsgResultView, RunEngine};
use crate::error::Span;
use crate::msg::ObjRef;
use crate::strmap::StrMap;
use crate::value::{Duplicate, Json};

verus! {

/// The state that the flags amount to. Outside a run call the engine is idle, whatever has been
/// requested; inside one a halt outranks an abort, which outranks a pause.
pub open spec fn run_state(c: Control) -> EngineRunState {
    if !c.is_running {
        EngineRunState::Idle
    } else if c.is_halting {
        EngineRunState::Halting
    } else if c.is_aborting {
        EngineRunState::Aborting
    } else if c.is_paused {
        EngineRunState::Paused
    } else {
        EngineRunState::Running
    }
}

/// The flags after a request to pause.
pub open spec fn paused(c: Control, defer: bool) -> Control {
    if defer {
        Control { deferred_pause: true, ..c }
    } else {
        Control { is_paused: true, ..c }
    }
}

/// The flags after a request to abort.
pub open spec fn aborted(c: Control) -> Control {
    Control { is_aborting: true, is_paused: false, cancelled: true, ..c }
}

/// The flags after a request to halt.
pub open spec fn halted(c: Control) -> Control {
    Control { is_halting: true, ..aborted(c) }
}

/// The flags after a request to stop gracefully.
pub open spec fn stopped(c: Control) -> Control {
    Control { is_stopping: true, ..aborted(c) }
}

/// What an interrupt signal makes the engine do.
#[derive(Copy, Clone, Debug, PartialEq, Eq, Structural)]
pub enum SignalAction {
    /// The engine pauses; the watcher goes on.
    Pause,
    /// The engine aborts; the watcher goes on.
    Abort,
    /// The engine halts; the watcher ends.
    Halt,
}

/// The action of the `n`-th interrupt signal of a run call.
pub open spec fn signal_action(n: nat) -> SignalAction {
    if n == 1 {
        SignalAction::Pause
    } else if n == 2 {
        SignalAction::Abort
    } else {
        SignalAction::Halt
    }
}

/// The flags after an action.
pub open spec fn signalled(c: Control, a: SignalAction) -> Control {
    match a {
        SignalAction::Pause => paused(c, false),
        SignalAction::Abort => aborted(c),
        SignalAction::Halt => halted(c),
    }
}

/// The subscribers without those of the given id.
pub open spec fn without_id(subs: Seq<(u64, u64)>, id: u64) -> Seq<(u64, u64)> {
    subs.filter(has_other_id(id))
}

/// Whether a subscriber has another id than `id`.
pub open spec fn has_other_id(id: u64) -> spec_fn((u64, u64)) -> bool {
    |s: (u64, u64)| s.0 != id
}

impl RunEngine {
    /// The current engine state.
    pub fn state(&self) -> (s: EngineRunState)
        ensures
            s == run_state(self@.control),
    {
        if !self.control.is_running {
            return EngineRunState::Idle;
        }
        if self.control.is_halting {
            return EngineRunState::Halting;
        }
        if self.control.is_aborting {
            return EngineRunState::Aborting;
        }
        if self.control.is_paused {
            return EngineRunState::Paused;
        }
        EngineRunState::Running
    }

    /// Requests a pause: at once, or at the next checkpoint when deferred.
    pub fn pause(&mut self, defer: bool)
        ensures
            final(self)@ == (EngineView {
                control: paused(old(self)@.control, defer),
                ..old(self)@
            }),
    {
        if defer {
            self.control.deferred_pause = true;
        } else {
            self.control.is_paused = true;
        }
    }

    /// Requests a pause.
    pub fn request_pause(&mut self, defer: bool)
        ensures
            final(self)@ == (EngineView {
                control: paused(old(self)@.control, defer),
                ..old(self)@
            }),
    {
        self.pause(defer)
    }

    /// Asks the engine to pause until something resumes it.
    pub fn request_suspend(&mut self)
        ensures
            final(self)@ == (EngineView {
                control: paused(old(self)@.control, false),
                ..old(self)@
            }),
    {
        self.pause(false)
    }

    /// Pauses until the host resumes. Gives the label under which the suspension is recorded.
    pub fn suspend_until_with(&mut self, justification: Option<String>) -> (label: String)
        ensures
            final(self)@ == (EngineView {
                control: paused(old(self)@.control, false),
                ..old(self)@
            }),
            label@ == match justification {
                Some(j) => j@,
                None => "suspended"@,
            },
    {
        self.control.is_paused = true;
        match justification {
            Some(j) => j,
            None => "suspended".to_owned(),
        }
    }

    /// Resumes a paused engine.
    pub fn resume(&mut self)
        ensures
            final(self)@ == (EngineView {
                control: (Control { is_paused: false, ..old(self)@.control }),
                ..old(self)@
            }),
    {
        self.control.is_paused = false;
    }

    /// Aborts the run.
    pub fn abort(&mut self)
        ensures
            final(self)@ == (EngineView { control: aborted(old(self)@.control), ..old(self)@ }),
    {
        self.control.is_aborting = true;
        self.control.is_paused = false;
        self.control.cancelled = true;
    }

    /// Halts the run.
    pub fn halt(&mut self)
        ensures
            final(self)@ == (EngineView { control: halted(old(self)@.control), ..old(self)@ }),
    {
        self.control.is_halting = true;
        self.control.is_aborting = true;
        self.control.is_paused = false;
        self.control.cancelled = true;
    }

    /// Stops the run gracefully: it closes as a success.
    pub fn stop(&mut self)
        ensures
            final(self)@ == (EngineView { control: stopped(old(self)@.control), ..old(self)@ }),
    {
        self.control.is_stopping = true;
        self.control.is_aborting = true;
        self.control.is_paused = false;
        self.control.cancelled = true;
    }

    /// Whether a pause is in effect.
    pub fn is_paused(&self) -> (yes: bool)
        ensures
            yes == self@.control.is_paused,
    {
        self.control.is_paused
    }

    /// Whether the operations of the current run are cancelled.
    pub fn is_cancelled(&self) -> (yes: bool)
        ensures
            yes == self@.control.cancelled,
    {
        self.control.cancelled
    }

    /// Marks the signal handler as installed. `false` when it already was, so that the host
    /// starts one watcher only.
    pub fn install_signal_handler(&mut self) -> (start: bool)
        ensures
            start == !old(self)@.control.signal_installed,
            final(self)@ == (EngineView {
                control: (Control { signal_installed: true, ..old(self)@.control }),
                ..old(self)@
            }),
    {
        let start = !self.control.signal_installed;
        self.control.signal_installed = true;
        start
    }

    /// Takes one interrupt signal: the first pauses, the second aborts, a later one halts. The
    /// count stops at its largest value.
    pub fn on_signal(&mut self) -> (action: SignalAction)
        ensures
            action == signal_action((old(self)@.control.sigint_count + 1) as nat),
            final(self)@ == (EngineView {
                control: signalled(
                    Control {
                        sigint_count: if old(self)@.control.sigint_count < u8::MAX {
                            (old(self)@.control.sigint_count + 1) as u8
                        } else {
                            u8::MAX
                        },
                        ..old(self)@.control
                    },
                    action,
                ),
                ..old(self)@
            }),
    {
        if self.control.sigint_count < u8::MAX {
            self.control.sigint_count = self.control.sigint_count + 1;
        }
        match self.control.sigint_count {
            1 => {
                self.pause(false);
                SignalAction::Pause
            },
            2 => {
                self.abort();
                SignalAction::Abort
            },
            _ => {
                self.halt();
                SignalAction::Halt
            },
        }
    }

    /// Turns interruption recording on or off.
    pub fn set_record_interruptions(&mut self, on: bool)
        ensures
            final(self)@ == (EngineView {
                control: (Control { record_interruptions: on, ..old(self)@.control }),
                ..old(self)@
            }),
    {
        self.control.record_interruptions = on;
    }

    /// Whether interruption recording is on.
    pub fn record_interruptions_enabled(&self) -> (yes: bool)
        ensures
            yes == self@.control.record_interruptions,
    {
        self.control.record_interruptions
    }

    /// Takes and clears the result of the message processed last.
    pub fn take_msg_result(&mut self) -> (r: MsgResult)
        ensures
            r@ == old(self)@.last_msg_result,
            final(self)@ == (EngineView {
                last_msg_result: MsgResultView::Nothing,
                ..old(self)@
            }),
    {
        let mut r = MsgResult::Nothing;
        std::mem::swap(&mut r, &mut self.last_msg_result);
        r
    }

    /// The persistent metadata.
    pub fn md(&self) -> (md: StrMap<Json>)
        ensures
            md@ == self@.md,
    {
        self.md.duplicate()
    }

    /// Sets one metadata key.
    pub fn md_set(&mut self, key: String, value: Json)
        ensures
            final(self)@ == (EngineView {
                md: old(self)@.md.insert(key@, value.deep_view()),
                ..old(self)@
            }),
    {
        self.md.insert(key, value);
    }

    /// Removes one metadata key.
    pub fn md_remove(&mut self, key: &str)
        ensures
            final(self)@ == (EngineView { md: old(self)@.md.remove(key@), ..old(self)@ }),
    {
        let _gone = self.md.remove(key);
    }

    /// Replaces the metadata.
    pub fn md_replace(&mut self, md: StrMap<Json>)
        ensures
            final(self)@ == (EngineView { md: md@, ..old(self)@ }),
    {
        self.md = md;
    }

    /// Subscribes a document callback; gives the id of the subscription.
    pub fn subscribe(&mut self, callback: u64) -> (id: u64)
        requires
            old(self)@.control.sub_counter < u64::MAX,
        ensures
            id == old(self)@.control.sub_counter + 1,
            final(self)@ == (EngineView {
                control: (Control { sub_counter: id, ..old(self)@.control }),
                subscribers: old(self)@.subscribers.push((id, callback)),
                ..old(self)@
            }),
    {
        let id: u64 = self.control.sub_counter + 1;
        self.control.sub_counter = id;
        self.subscribers.push((id, callback));
        id
    }

    /// Removes a subscriber by its id. Nothing happens if the id is unknown.
    pub fn unsubscribe(&mut self, id: u64)
        ensures
            final(self)@ == (EngineView {
                subscribers: without_id(old(self)@.subscribers, id),
                ..old(self)@
            }),
    {
        let ghost all = self.subscribers@;
        let mut kept: Vec<(u64, u64)> = Vec::new();
        let mut i: usize = 0;
        proof {
            assert(all.take(0) =~= Seq::empty());
            reveal(Seq::filter);
        }
        while i < self.subscribers.len()
            invariant
                i <= self.subscribers.len(),
                self.subscribers@ == all,
                kept@ == without_id(all.take(i as int), id),
            decreases self.subscribers.len() - i,
        {
            let s = self.subscribers[i];
            proof {
                lemma_filter_push(all, i as int, id);
            }
            if s.0 != id {
                kept.push(s);
            }
            i += 1;
        }
        proof {
            assert(all.take(all.len() as int) =~= all);
        }
        self.subscribers = kept;
    }

    /// The handles of the subscribed callbacks, in order of subscription: each is called with
    /// every document, after the sinks.
    pub fn callbacks(&self) -> (handles: Vec<u64>)
        ensures
            handles@ == self@.subscribers.map_values(|s: (u64, u64)| s.1),
    {
        let mut handles: Vec<u64> = Vec::new();
        let mut i: usize = 0;
        while i < self.subscribers.len()
            invariant
                i <= self.subscribers.len(),
                handles@.len() == i,
                forall|k: int| 0 <= k < i ==> handles@[k] == self.subscribers@[k].1,
            decreases self.subscribers.len() - i,
        {
            handles.push(self.subscribers[i].1);
            i += 1;
        }
        assert(handles@ =~= self@.subscribers.map_values(|s: (u64, u64)| s.1));
        handles
    }

    /// Registers a custom command handler.
    pub fn register_command(&mut self, name: String, handler: u64)
        ensures
            final(self)@ == (EngineView {
                commands: old(self)@.commands.insert(name@, handler),
                ..old(self)@
            }),
    {
        self.commands.insert(name, handler);
    }

    /// Removes a custom command handler.
    pub fn unregister_command(&mut self, name: &str)
        ensures
            final(self)@ == (EngineView {
                commands: old(self)@.commands.remove(name@),
                ..old(self)@
            }),
    {
        let _gone = self.commands.remove(name);
    }

    /// Installs or removes the metadata validator.
    pub fn set_md_validator(&mut self, v: Option<u64>)
        ensures
            final(self)@ == (EngineView {
                hooks: (Hooks { md_validator: v, ..old(self)@.hooks }),
                ..old(self)@
            }),
    {
        self.hooks.md_validator = v;
    }

    /// Installs or removes the metadata normalizer.
    pub fn set_md_normalizer(&mut self, n: Option<u64>)
        ensures
            final(self)@ == (EngineView {
                hooks: (Hooks { md_normalizer: n, ..old(self)@.hooks }),
                ..old(self)@
            }),
    {
        self.hooks.md_normalizer = n;
    }

    /// Installs or removes the scan id source.
    pub fn set_scan_id_source(&mut self, s: Option<u64>)
        ensures
            final(self)@ == (EngineView {
                hooks: (Hooks { scan_id_source: s, ..old(self)@.hooks }),
                ..old(self)@
            }),
    {
        self.hooks.scan_id_source = s;
    }

    /// Installs or removes the hook before each run call.
    pub fn set_before_plan(&mut self, h: Option<u64>)
        ensures
            final(self)@ == (EngineView {
                hooks: (Hooks { before_plan: h, ..old(self)@.hooks }),
                ..old(self)@
            }),
    {
        self.hooks.before_plan = h;
    }

    /// Installs or removes the hook after each run call.
    pub fn set_after_plan(&mut self, h: Option<u64>)
        ensures
            final(self)@ == (EngineView {
                hooks: (Hooks { after_plan: h, ..old(self)@.hooks }),
                ..old(self)@
            }),
    {
        self.hooks.after_plan = h;
    }

    /// Sets or clears the limit on a whole run call.
    pub fn set_loop_timeout(&mut self, t: Option<Span>)
        ensures
            final(self)@ == (EngineView {
                hooks: (Hooks { loop_timeout: t, ..old(self)@.hooks }),
                ..old(self)@
            }),
    {
        self.hooks.loop_timeout = t;
    }

    /// Installs or removes the handler of input requests.
    pub fn set_input_handler(&mut self, h: Option<u64>)
        ensures
            final(self)@ == (EngineView {
                hooks: (Hooks { input_handler: h, ..old(self)@.hooks }),
                ..old(self)@
            }),
    {
        self.hooks.input_handler = h;
    }

    /// Installs the checkpoint hook.
    pub fn set_checkpoint_hook(&mut self, hook: u64)
        ensures
            final(self)@ == (EngineView {
                hooks: (Hooks { checkpoint_hook: Some(hook), ..old(self)@.hooks }),
                ..old(self)@
            }),
    {
        self.hooks.checkpoint_hook = Some(hook);
    }

    /// The hooks of the engine.
    pub fn hooks(&self) -> (h: Hooks)
        ensures
            h == self@.hooks,
    {
        self.hooks
    }

    /// Appends a plan preprocessor.
    pub fn add_preprocessor(&mut self, p: u64)
        ensures
            final(self)@ == (EngineView {
                preprocessors: old(self)@.preprocessors.push(p),
                ..old(self)@
            }),
    {
        self.preprocessors.push(p);
    }

    /// Drops all plan preprocessors.
    pub fn clear_preprocessors(&mut self)
        ensures
            final(self)@ == (EngineView { preprocessors: seq![], ..old(self)@ }),
    {
        self.preprocessors.clear();
    }

    /// The plan preprocessors, in the order in which they wrap a plan.
    pub fn preprocessors(&self) -> (p: &Vec<u64>)
        ensures
            p@ == self@.preprocessors,
    {
        &self.preprocessors
    }

    /// Registers a device for pause and resume hooks.
    pub fn register_pausable(&mut self, obj: ObjRef)
        ensures
            final(self)@ == (EngineView {
                pausables: old(self)@.pausables.insert(obj.name@, obj.deep_view()),
                ..old(self)@
            }),
    {
        self.pausables.insert(obj.name.clone(), obj);
    }

    /// Removes a registered device.
    pub fn unregister_pausable(&mut self, name: &str)
        ensures
            final(self)@ == (EngineView {
                pausables: old(self)@.pausables.remove(name@),
                ..old(self)@
            }),
    {
        let _gone = self.pausables.remove(name);
    }

    /// Hands out a fresh suspender id.
    pub fn next_suspender_id(&mut self) -> (id: u64)
        requires
            old(self)@.control.suspender_count < u64::MAX,
        ensures
            id == old(self)@.control.suspender_count,
            final(self)@ == (EngineView {
                control: (Control { suspender_count: (id + 1) as u64, ..old(self)@.control }),
                ..old(self)@
            }),
    {
        let id: u64 = self.control.suspender_count;
        self.control.suspender_count = id + 1;
        id
    }

    /// The UID of the open run.
    pub fn current_run_uid(&self) -> (uid: Option<String>)
        ensures
            match uid {
                Some(u) => self@.bundler matches Some(b) && u@ == b.bundle.start_uid,
                None => self@.bundler is None,
            },
    {
        match &self.bundler {
            Some(b) => Some(b.start_uid().to_owned()),
            None => None,
        }
    }
}

/// Filtering one more subscriber.
proof fn lemma_filter_push(all: Seq<(u64, u64)>, i: int, id: u64)
    requires
        0 <= i < all.len(),
    ensures
        without_id(all.take(i + 1), id) == if all[i].0 != id {
            without_id(all.take(i), id).push(all[i])
        } else {
            without_id(all.take(i), id)
        },
{
    reveal(Seq::filter);
    assert(all.take(i + 1).drop_last() =~= all.take(i));
    assert(all.take(i + 1).last() == all[i]);
}

/// A request sets its own flag: a pause takes effect at once or is deferred; an abort, a halt and a
/// stop end a pause and cancel what is under way. No request touches the numbering of runs and
/// subscriptions, the record, or whether interruptions are recorded.
pub proof fn law_requests_set_their_flags(c: Control, d: Control)
    requires
        d == paused(c, true) || d == paused(c, false) || d == aborted(c) || d == halted(c) || d
            == stopped(c),
    ensures
        paused(c, true).deferred_pause && paused(c, true).is_paused == c.is_paused,
        paused(c, false).is_paused && paused(c, false).deferred_pause == c.deferred_pause,
        aborted(c).is_aborting && !aborted(c).is_paused && aborted(c).cancelled,
        aborted(c).is_halting == c.is_halting && aborted(c).is_stopping == c.is_stopping,
        halted(c).is_halting && halted(c).is_aborting && !halted(c).is_paused && halted(
            c,
        ).cancelled && halted(c).is_stopping == c.is_stopping,
        stopped(c).is_stopping && stopped(c).is_aborting && !stopped(c).is_paused && stopped(
            c,
        ).cancelled && stopped(c).is_halting == c.is_halting,
        d.is_running == c.is_running,
        d.rewindable == c.rewindable,
        d.record_interruptions == c.record_interruptions,
        d.scan_id == c.scan_id,
        d.sub_counter == c.sub_counter,
        d.suspender_count == c.suspender_count,
        d.sigint_count == c.sigint_count,
{
}

/// The state that is reported: idle outside of a run call; inside of one halting before aborting
/// before paused before running.
pub proof fn law_state_is_reported(c: Control)
    ensures
        run_state(c) == if !c.is_running {
            EngineRunState::Idle
        } else if c.is_halting {
            EngineRunState::Halting
        } else if c.is_aborting {
            EngineRunState::Aborting
        } else if c.is_paused {
            EngineRunState::Paused
        } else {
            EngineRunState::Running
        },
{
}

} // verus!
