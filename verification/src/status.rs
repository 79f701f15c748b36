//! Completion handles.

use vstd::prelude::*;
use vstd::string::*;

use crate::error::{CirrusError, Span};
use crate::value::{double_json, json_view, Double, Json, JsonView};

verus! {

/// Errors that a [`Status`] can carry.
#[derive(Debug, PartialEq, Eq)]
pub enum StatusError {
    /// The operation was cancelled before completion.
    Cancelled,
    /// The operation timed out waiting for completion.
    Timeout,
    /// The operation completed with an error message.
    Failed(String),
}

impl Clone for StatusError {
    fn clone(&self) -> (e: Self)
        ensures
            e == *self,
    {
        match self {
            StatusError::Cancelled => StatusError::Cancelled,
            StatusError::Timeout => StatusError::Timeout,
            StatusError::Failed(s) => StatusError::Failed(s.clone()),
        }
    }
}

/// The human-readable text of a status error.
pub open spec fn status_error_text(e: StatusError) -> Seq<char> {
    match e {
        StatusError::Cancelled => "cancelled"@,
        StatusError::Timeout => "timed out"@,
        StatusError::Failed(s) => s@,
    }
}

impl StatusError {
    /// The human-readable text of the error.
    pub fn describe(&self) -> (text: String)
        ensures
            text@ == status_error_text(*self),
    {
        match self {
            StatusError::Cancelled => "cancelled".to_owned(),
            StatusError::Timeout => "timed out".to_owned(),
            StatusError::Failed(s) => s.clone(),
        }
    }

    /// The engine error that a failed status turns into.
    pub fn into_error(self) -> (e: CirrusError)
        ensures
            e == engine_error(self),
    {
        match self {
            StatusError::Cancelled => CirrusError::Cancelled,
            StatusError::Timeout => CirrusError::Timeout(Span { secs: 0, nanos: 0 }),
            StatusError::Failed(s) => CirrusError::Backend(s),
        }
    }
}

/// The engine error that a failed status turns into.
pub open spec fn engine_error(e: StatusError) -> CirrusError {
    match e {
        StatusError::Cancelled => CirrusError::Cancelled,
        StatusError::Timeout => CirrusError::Timeout(Span { secs: 0, nanos: 0 }),
        StatusError::Failed(s) => CirrusError::Backend(s),
    }
}

/// Outcome of a status, as callbacks receive it.
#[derive(Debug, PartialEq, Eq)]
pub enum StatusOutcome {
    /// Successful completion.
    Success,
    /// Failure with cause.
    Failed(StatusError),
}

impl Clone for StatusOutcome {
    fn clone(&self) -> (o: Self)
        ensures
            o == *self,
    {
        match self {
            StatusOutcome::Success => StatusOutcome::Success,
            StatusOutcome::Failed(e) => StatusOutcome::Failed(e.clone()),
        }
    }
}

/// A deferred operation: pending until its first completion, which is final. Callbacks are
/// named by the handles under which the host keeps them.
#[derive(Debug)]
pub struct Status {
    outcome: Option<StatusOutcome>,
    progress: Double,
    callbacks: Vec<u64>,
}

/// What a [`Status`] stands for.
pub struct StatusView {
    /// The outcome, once there is one.
    pub outcome: Option<StatusOutcome>,
    /// Latest progress fraction.
    pub progress: Double,
    /// Callbacks that wait for completion, in order of registration.
    pub callbacks: Seq<u64>,
}

impl View for Status {
    type V = StatusView;

    closed spec fn view(&self) -> StatusView {
        StatusView {
            outcome: self.outcome,
            progress: self.progress,
            callbacks: self.callbacks@,
        }
    }
}

impl StatusView {
    /// The view after completion with `outcome`: the first completion wins.
    pub open spec fn complete(self, outcome: StatusOutcome) -> StatusView {
        if self.outcome is None {
            StatusView { outcome: Some(outcome), callbacks: seq![], ..self }
        } else {
            self
        }
    }

    /// The view after a callback was registered: nothing is registered after completion.
    pub open spec fn register(self, callback: u64) -> StatusView {
        if self.outcome is None {
            StatusView { callbacks: self.callbacks.push(callback), ..self }
        } else {
            self
        }
    }

    /// The callbacks that a completion fires.
    pub open spec fn fired(self) -> Seq<u64> {
        if self.outcome is None {
            self.callbacks
        } else {
            seq![]
        }
    }
}

impl Status {
    /// A pending status with no progress.
    pub fn new() -> (s: Self)
        ensures
            s@ == (StatusView { outcome: None, progress: (Double { bits: 0 }), callbacks: seq![] }),
    {
        Status { outcome: None, progress: Double { bits: 0 }, callbacks: Vec::new() }
    }

    /// A status that has already succeeded.
    pub fn done() -> (s: Self)
        ensures
            s@ == (StatusView {
                outcome: Some(StatusOutcome::Success),
                progress: (Double { bits: 0 }),
                callbacks: seq![],
            }),
    {
        let mut s = Status::new();
        let _fired = s.complete(StatusOutcome::Success);
        s
    }

    /// A status that has already failed.
    pub fn fail(err: StatusError) -> (s: Self)
        ensures
            s@ == (StatusView {
                outcome: Some(StatusOutcome::Failed(err)),
                progress: (Double { bits: 0 }),
                callbacks: seq![],
            }),
    {
        let mut s = Status::new();
        let _fired = s.complete(StatusOutcome::Failed(err));
        s
    }

    /// Whether the operation has completed.
    pub fn done_state(&self) -> (yes: bool)
        ensures
            yes == (self@.outcome is Some),
    {
        self.outcome.is_some()
    }

    /// Whether the operation has completed successfully.
    pub fn success(&self) -> (yes: bool)
        ensures
            yes == (self@.outcome == Some(StatusOutcome::Success)),
    {
        matches!(self.outcome, Some(StatusOutcome::Success))
    }

    /// The error, if the operation failed.
    pub fn exception(&self) -> (e: Option<StatusError>)
        ensures
            match e {
                Some(err) => self@.outcome == Some(StatusOutcome::Failed(err)),
                None => !(self@.outcome matches Some(StatusOutcome::Failed(_))),
            },
    {
        match &self.outcome {
            Some(StatusOutcome::Failed(e)) => Some(e.clone()),
            _ => None,
        }
    }

    /// Registers a callback. When the operation has already completed, hands back the outcome
    /// that the callback is to be fired with at once, and registers nothing.
    pub fn add_callback(&mut self, callback: u64) -> (now: Option<StatusOutcome>)
        ensures
            now == old(self)@.outcome,
            final(self)@ == old(self)@.register(callback),
    {
        match &self.outcome {
            Some(o) => Some(o.clone()),
            None => {
                self.callbacks.push(callback);
                None
            },
        }
    }

    /// Completes the operation; of several completions the first wins. Hands back the
    /// callbacks to fire, in order of registration.
    pub fn complete(&mut self, outcome: StatusOutcome) -> (fire: Vec<u64>)
        ensures
            final(self)@ == old(self)@.complete(outcome),
            fire@ == old(self)@.fired(),
    {
        let mut fire: Vec<u64> = Vec::new();
        if self.outcome.is_none() {
            self.outcome = Some(outcome);
            std::mem::swap(&mut fire, &mut self.callbacks);
        }
        fire
    }

    /// Updates the progress fraction.
    pub fn set_progress(&mut self, progress: Double)
        ensures
            final(self)@ == (StatusView { progress, ..old(self)@ }),
    {
        self.progress = progress;
    }

    /// The latest progress fraction.
    pub fn progress(&self) -> (p: Double)
        ensures
            p == self@.progress,
    {
        self.progress
    }

    /// What awaiting the status gives now: `None` while it is pending.
    pub fn poll(&self) -> (ready: Option<Result<(), StatusError>>)
        ensures
            ready == match self@.outcome {
                None => None,
                Some(StatusOutcome::Success) => Some(Ok(())),
                Some(StatusOutcome::Failed(e)) => Some(Err(e)),
            },
    {
        match &self.outcome {
            None => None,
            Some(StatusOutcome::Success) => Some(Ok(())),
            Some(StatusOutcome::Failed(e)) => Some(Err(e.clone())),
        }
    }

    /// A table of the current state: `done`, `success` (`null` while pending), `exception`
    /// and `progress`.
    pub fn inspect(&self) -> (j: Json)
        ensures
            j.deep_view() == status_table(self@),
    {
        let success = match &self.outcome {
            None => Json::Null,
            Some(StatusOutcome::Success) => Json::Bool(true),
            Some(StatusOutcome::Failed(_)) => Json::Bool(false),
        };
        let exception = match &self.outcome {
            Some(StatusOutcome::Failed(e)) => Json::Str(e.describe()),
            _ => Json::Null,
        };
        let mut members: Vec<(String, Json)> = Vec::new();
        members.push(("done".to_owned(), Json::Bool(self.outcome.is_some())));
        members.push(("success".to_owned(), success));
        members.push(("exception".to_owned(), exception));
        members.push(("progress".to_owned(), self.progress.into_json()));
        let j = Json::Object(members);
        proof {
            reveal_with_fuel(json_view, 2);
        }
        assert(j.deep_view()->Object_0 =~= status_table(self@)->Object_0);
        j
    }
}

/// The table that describes a status.
pub open spec fn status_table(s: StatusView) -> JsonView {
    JsonView::Object(
        seq![
            ("done"@, JsonView::Bool(s.outcome is Some)),
            (
                "success"@,
                match s.outcome {
                    None => JsonView::Null,
                    Some(o) => JsonView::Bool(o is Success),
                },
            ),
            (
                "exception"@,
                match s.outcome {
                    Some(StatusOutcome::Failed(e)) => JsonView::Str(status_error_text(e)),
                    _ => JsonView::Null,
                },
            ),
            ("progress"@, double_json(s.progress)),
        ],
    )
}

/// A status completes at most once: after one completion, another changes nothing and fires
/// nothing.
pub proof fn law_completes_once(s: StatusView, first: StatusOutcome, second: StatusOutcome)
    ensures
        s.complete(first).complete(second) == s.complete(first),
        s.complete(first).fired() =~= Seq::<u64>::empty(),
        s.complete(first).outcome is Some,
{
}

/// Token of one subscription. The host runs the unsubscribe action that `release` hands out.
#[derive(Debug)]
pub struct SubToken {
    on_drop: Option<u64>,
}

impl View for SubToken {
    type V = Option<u64>;

    closed spec fn view(&self) -> Option<u64> {
        self.on_drop
    }
}

impl SubToken {
    /// A token whose release runs the action of the given handle.
    pub fn new(unsubscribe: u64) -> (t: Self)
        ensures
            t@ == Some(unsubscribe),
    {
        SubToken { on_drop: Some(unsubscribe) }
    }

    /// A token with no action.
    pub fn noop() -> (t: Self)
        ensures
            t@ is None,
    {
        SubToken { on_drop: None }
    }

    /// Releases the token. The action is handed out once, by the first release.
    pub fn release(&mut self) -> (action: Option<u64>)
        ensures
            action == old(self)@,
            final(self)@ is None,
    {
        self.on_drop.take()
    }
}

/// Every callback that is registered while a status is pending is fired by its completion, once and
/// in the order of registration; a callback that is registered later is fired by none.
pub proof fn law_callbacks_fire_in_order(
    ss: Seq<StatusView>,
    callbacks: Seq<u64>,
    outcome: StatusOutcome,
    late: u64,
)
    requires
        ss.len() == callbacks.len() + 1,
        ss[0].outcome is None,
        ss[0].callbacks.len() == 0,
        forall|i: int| 0 <= i < callbacks.len() ==> ss[i + 1] == ss[i].register(#[trigger] callbacks[i]),
    ensures
        ss.last().outcome is None,
        ss.last().fired() == callbacks,
        ss.last().complete(outcome).outcome == Some(outcome),
        ss.last().complete(outcome).progress == ss[0].progress,
        ss.last().complete(outcome).register(late).fired().len() == 0,
        ss.last().complete(outcome).register(late).callbacks.len() == 0,
    decreases callbacks.len(),
{
    if callbacks.len() > 0 {
        let earlier = callbacks.drop_last();
        let n = earlier.len() as int;
        assert forall|i: int| 0 <= i < earlier.len() implies ss.drop_last()[i + 1]
            == ss.drop_last()[i].register(#[trigger] earlier[i]) by {
            assert(earlier[i] == callbacks[i]);
        }
        law_callbacks_fire_in_order(ss.drop_last(), earlier, outcome, late);
        assert(ss[n + 1] == ss[n].register(callbacks[n]));
        assert(ss.drop_last().last() == ss[n]);
        assert(ss.last() == ss[n + 1]);
        assert(ss.last().callbacks =~= callbacks);
    } else {
        assert(ss.last().callbacks =~= callbacks);
    }
}

/// A status tells the same in every way: pending it has neither success nor error; completed it is
/// done, and succeeded exactly where there is no error. An error reaches the engine as what it is.
pub proof fn law_status_is_consistent(
    s: Status,
    done: bool,
    success: bool,
    error: Option<StatusError>,
    ready: Option<Result<(), StatusError>>,
)
    requires
        call_ensures(Status::done_state, (&s,), done),
        call_ensures(Status::success, (&s,), success),
        call_ensures(Status::exception, (&s,), error),
        call_ensures(Status::poll, (&s,), ready),
    ensures
        done <==> s@.outcome is Some,
        ready is Some <==> done,
        success <==> ready matches Some(Ok(())),
        error is Some <==> ready matches Some(Err(_)),
        done ==> (success <==> error is None),
        s@.outcome == Some(StatusOutcome::Success) ==> success,
        s@.outcome matches Some(StatusOutcome::Failed(e)) ==> error == Some(e) && ready == Some(
            Err::<(), StatusError>(e),
        ),
{
}

/// The table of a status has whether it is done, whether it succeeded, its error and its progress,
/// under these names.
pub proof fn law_status_table(s: Status, j: Json)
    requires
        call_ensures(Status::inspect, (&s,), j),
    ensures
        j.deep_view() matches JsonView::Object(m) && {
            &&& m.len() == 4
            &&& m[0] == ("done"@, JsonView::Bool(s@.outcome is Some))
            &&& m[1].0 == "success"@
            &&& match s@.outcome {
                None => m[1].1 is Null,
                Some(StatusOutcome::Success) => m[1].1 == JsonView::Bool(true),
                Some(StatusOutcome::Failed(_)) => m[1].1 == JsonView::Bool(false),
            }
            &&& m[2].0 == "exception"@
            &&& (m[2].1 is Str <==> (s@.outcome matches Some(StatusOutcome::Failed(_))))
            &&& (s@.outcome matches Some(StatusOutcome::Failed(StatusError::Failed(t))) ==> m[2].1
                == JsonView::Str(t@))
            &&& m[3].0 == "progress"@
            &&& s@.progress.finite() ==> m[3].1 == JsonView::Real(s@.progress)
        },
{
}

/// A status that failed becomes the error that says so: its message, a cancellation, or a time that
/// ran out.
pub proof fn law_status_error_becomes_an_error(e: StatusError, x: CirrusError, text: String)
    requires
        call_ensures(StatusError::into_error, (e,), x),
        call_ensures(StatusError::describe, (&e,), text),
    ensures
        match e {
            StatusError::Failed(m) => x == CirrusError::Backend(m) && text@ == m@,
            StatusError::Cancelled => x is Cancelled,
            StatusError::Timeout => x is Timeout,
        },
{
}

/// A subscription is released once: the first release tells how it is undone, and a second one has
/// nothing to undo.
pub proof fn law_token_is_released_once(
    unsubscribe: u64,
    t: SubToken,
    a: &mut SubToken,
    first: Option<u64>,
    b: &mut SubToken,
    second: Option<u64>,
)
    requires
        call_ensures(SubToken::new, (unsubscribe,), t),
        *old(a) == t,
        call_ensures(SubToken::release, (a,), first),
        *old(b) == *final(a),
        call_ensures(SubToken::release, (b,), second),
    ensures
        first == Some(unsubscribe),
        second is None,
{
}

} // verus!
