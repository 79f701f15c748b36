//! The message loop of one run call: what the host does next, from the flags, the replay queue,
//! the plan and the outcome of each message.

use std::sync::Arc;

use vstd::prelude::*;
use vstd::string::*;

use super::lifecycle::{fails, interrupted, loop_finished};
use super::replay::{lists_values, recorded, replayed, Fetch, PauseActions};
use super::{Call, EngineView, Next, Now, RunEngine, RunResult};
use crate::documents::Document;
use crate::error::CirrusError;
use crate::msg::Msg;

verus! {

/// What the message loop asks of the host.
#[derive(Debug)]
pub enum Ask {
    /// Quiet these devices, wait for the resume, leave the pause gate and ask again.
    Pause(PauseActions),
    /// Hand over what the plan yields.
    Plan,
    /// Process this message.
    Process(Msg),
    /// End the loop.
    End,
}

/// The message loop of one run call.
#[derive(Debug)]
pub struct RunLoop {
    /// UID of the last run that was opened.
    pub run_uid: Option<String>,
    /// The error that ends the loop.
    pub failure: Option<CirrusError>,
}

/// The loop ends instead of processing a message when the run call was interrupted.
pub open spec fn unless_interrupted(e: EngineView, m: Msg, a: Ask) -> bool {
    if interrupted(e.control) {
        a is End
    } else {
        a == Ask::Process(m)
    }
}

/// What the loop asks for, and the engine after it.
pub open spec fn asked(l: RunLoop, before: EngineView, after: EngineView, a: Ask) -> bool {
    if l.failure is Some || before.control.is_aborting {
        a is End && after == before
    } else if before.control.is_paused {
        match a {
            Ask::Pause(p) => {
                &&& after == EngineView { monitor_tasks: seq![], ..before }
                &&& lists_values(p.movables@, before.movable_objs_touched)
                &&& lists_values(p.flyables@, before.flyable_objs_touched)
                &&& lists_values(p.pausables@, before.pausables)
            },
            _ => false,
        }
    } else if before.replay_queue.len() > 0 {
        &&& after == replayed(before)
        &&& unless_interrupted(before, before.replay_queue[0], a)
    } else {
        a is Plan && after == before
    }
}

/// What the loop asks for once the plan has yielded `m`, and the engine after it.
pub open spec fn answered(
    before: EngineView,
    after: EngineView,
    m: Option<Msg>,
    a: Ask,
) -> bool {
    match m {
        None => a is End && after == before,
        Some(m) => after == recorded(before, m) && unless_interrupted(before, m, a),
    }
}

/// The loop after the outcome of a message.
pub open spec fn advanced(l: RunLoop, next: Next) -> RunLoop {
    match next {
        Next::Done(Some(uid)) => RunLoop { run_uid: Some(uid), ..l },
        Next::Failed(e) => RunLoop { failure: Some(e), ..l },
        _ => l,
    }
}

impl RunLoop {
    /// The loop at the beginning of a run call.
    pub fn new() -> (l: Self)
        ensures
            l == (RunLoop { run_uid: None, failure: None }),
    {
        RunLoop { run_uid: None, failure: None }
    }

    /// Says what comes next. A message to replay is taken off its queue and recorded again; entering
    /// the pause gate ends the monitors.
    pub fn ask(&self, re: &mut RunEngine) -> (a: Ask)
        ensures
            asked(*self, old(re)@, final(re)@, a),
    {
        if self.failure.is_some() {
            return Ask::End;
        }
        match re.next_msg() {
            Fetch::Ended => Ask::End,
            Fetch::Paused => Ask::Pause(re.on_pause_enter()),
            Fetch::Replay(m) => if re.is_interrupted() {
                Ask::End
            } else {
                Ask::Process(m)
            },
            Fetch::Plan => Ask::Plan,
        }
    }

    /// Takes what the plan yielded, which is nothing at its end.
    pub fn yielded(&self, re: &mut RunEngine, m: Option<Msg>) -> (a: Ask)
        ensures
            answered(old(re)@, final(re)@, m, a),
    {
        match m {
            None => Ask::End,
            Some(m) => {
                re.plan_yielded(&m);
                if re.is_interrupted() {
                    Ask::End
                } else {
                    Ask::Process(m)
                }
            },
        }
    }

    /// Takes the outcome of a message: the call that the host has to make for it, if there is
    /// one.
    pub fn advance(&mut self, next: Next) -> (call: Option<Call>)
        ensures
            *final(self) == advanced(*old(self), next),
            call == match next {
                Next::Call(c) => Some(c),
                _ => None,
            },
    {
        match next {
            Next::Done(Some(uid)) => {
                self.run_uid = Some(uid);
                None
            },
            Next::Done(None) => None,
            Next::Failed(e) => {
                self.failure = Some(e);
                None
            },
            Next::Call(c) => Some(c),
        }
    }

    /// Ends the loop: closes the open run and gives the result of the call.
    pub fn finish(self, re: &mut RunEngine, now: Now) -> (r: (RunResult, Vec<Arc<Document>>))
        ensures
            loop_finished(old(re)@, final(re)@, self.run_uid, self.failure, now, r.0, r.1@),
    {
        re.finish_loop(self.run_uid, self.failure, now)
    }
}

/// Once a message has failed the loop processes nothing more, and the call ends as a failure,
/// unless an abort, a stop or a halt cut a wait short.
pub proof fn law_failure_ends_the_loop(
    l: RunLoop,
    e: CirrusError,
    before: EngineView,
    after: EngineView,
    a: Ask,
    last: EngineView,
    now: Now,
    result: RunResult,
    emit: Seq<Arc<Document>>,
)
    requires
        asked(advanced(l, Next::Failed(e)), before, after, a),
        loop_finished(
            after,
            last,
            l.run_uid,
            advanced(l, Next::Failed(e)).failure,
            now,
            result,
            emit,
        ),
    ensures
        a is End,
        after == before,
        fails(Some(e), after.control) ==> result.exit_status@ == "fail"@,
        result.run_uid == l.run_uid,
{
}

/// After an abort, a stop or a halt no further message is processed, whether it was to be
/// replayed or came from the plan.
pub proof fn law_no_message_after_an_interruption(
    l: RunLoop,
    m: Option<Msg>,
    before: EngineView,
    after: EngineView,
    a: Ask,
)
    requires
        interrupted(before.control),
        asked(l, before, after, a) || answered(before, after, m, a),
    ensures
        !(a is Process),
{
}

} // verus!
