//! The run engine: consumes the messages of a plan and emits documents.
//!
//! The engine is a state machine. [`RunEngine::handle`] takes one message and answers with a
//! [`Step`]: the documents to emit, and either the result of the message or a [`Call`] that
//! the host has to carry out. Each call names the method that takes its reply.

use std::sync::Arc;

use vstd::prelude::*;
use vstd::string::*;

use crate::bundler::{BundlerView, RunBundler};
use crate::compose::{BundleView, RunBundle};
use crate::documents::Document;
use crate::error::{CirrusError, Span};
use crate::msg::{ConfigureArgs, Msg, ObjRef, ObjView};
use crate::reading::{ReadingValue, ReadingView};
use crate::strmap::StrMap;
use crate::value::{Double, Json, JsonView};

pub mod call;
pub mod control;
pub mod dispatch;
pub mod fan_out;
pub mod laws;
pub mod lifecycle;
pub mod messages;
pub mod operations;
pub mod replay;
pub mod replies;
pub mod run;
pub mod run_loop;
pub mod streams;

verus! {

/// State the engine reports.
#[derive(Copy, Clone, Debug, PartialEq, Eq, Structural)]
pub enum EngineRunState {
    /// Not inside a run call.
    Idle,
    /// Processing messages.
    Running,
    /// Blocked at the pause gate.
    Paused,
    /// An abort was requested; the run is closing.
    Aborting,
    /// A halt was requested.
    Halting,
}

/// What a checkpoint hook is given.
#[derive(Debug)]
pub struct CheckpointSnapshot {
    /// Wall-clock nanoseconds since the Unix epoch.
    pub timestamp_ns: u64,
    /// UID of the open run, if one is open.
    pub run_uid: Option<String>,
}

/// Result of the message processed last.
#[derive(Debug)]
pub enum MsgResult {
    /// Nothing useful.
    Nothing,
    /// A run was opened.
    OpenRun {
        /// Run-start UID.
        uid: String,
    },
    /// A status was added to a wait group.
    Status {
        /// The wait group.
        group: String,
    },
    /// A device was read.
    Reading {
        /// Field name to reading.
        data: StrMap<ReadingValue>,
    },
    /// A device was located.
    Location {
        /// Where the device was last asked to move.
        setpoint: Double,
        /// Where the device is.
        readback: Double,
    },
    /// A run was closed.
    CloseRun {
        /// Its exit status.
        exit_status: String,
    },
    /// The user gave a line of input.
    Input {
        /// The line.
        text: String,
    },
    /// The engine identified itself.
    EngineClass {
        /// Class name.
        name: String,
    },
    /// A subscriber was added.
    SubscriptionId {
        /// Its id.
        id: u64,
    },
}

/// What a [`MsgResult`] stands for.
pub enum MsgResultView {
    /// Nothing useful.
    Nothing,
    /// A run was opened.
    OpenRun {
        /// Run-start UID.
        uid: Seq<char>,
    },
    /// A status was added to a wait group.
    Status {
        /// The wait group.
        group: Seq<char>,
    },
    /// A device was read.
    Reading {
        /// Field name to reading.
        data: Map<Seq<char>, ReadingView>,
    },
    /// A device was located.
    Location {
        /// Where the device was last asked to move.
        setpoint: Double,
        /// Where the device is.
        readback: Double,
    },
    /// A run was closed.
    CloseRun {
        /// Its exit status.
        exit_status: Seq<char>,
    },
    /// The user gave a line of input.
    Input {
        /// The line.
        text: Seq<char>,
    },
    /// The engine identified itself.
    EngineClass {
        /// Class name.
        name: Seq<char>,
    },
    /// A subscriber was added.
    SubscriptionId {
        /// Its id.
        id: u64,
    },
}

impl View for MsgResult {
    type V = MsgResultView;

    open spec fn view(&self) -> MsgResultView {
        match *self {
            MsgResult::Nothing => MsgResultView::Nothing,
            MsgResult::OpenRun { uid } => MsgResultView::OpenRun { uid: uid@ },
            MsgResult::Status { group } => MsgResultView::Status { group: group@ },
            MsgResult::Reading { data } => MsgResultView::Reading { data: data@ },
            MsgResult::Location { setpoint, readback } => MsgResultView::Location {
                setpoint,
                readback,
            },
            MsgResult::CloseRun { exit_status } => MsgResultView::CloseRun {
                exit_status: exit_status@,
            },
            MsgResult::Input { text } => MsgResultView::Input { text: text@ },
            MsgResult::EngineClass { name } => MsgResultView::EngineClass { name: name@ },
            MsgResult::SubscriptionId { id } => MsgResultView::SubscriptionId { id },
        }
    }
}

/// Final state of a finished run call.
#[derive(Debug)]
pub struct RunResult {
    /// Run start UID, if a run was opened.
    pub run_uid: Option<String>,
    /// `success`, `abort`, `fail`, `halt` or `no-run`.
    pub exit_status: String,
}

/// Per-call options of a run.
#[derive(Debug)]
pub struct RunOptions {
    /// Metadata merged into every `OpenRun` of the call.
    pub md: StrMap<Json>,
    /// Handles of the callbacks that are subscribed for the call alone.
    pub subs: Vec<u64>,
}

/// Flags and counters of the engine.
#[derive(Copy, Clone, Debug)]
pub struct Control {
    /// Whether a pause is in effect.
    pub is_paused: bool,
    /// Whether a run call is in progress.
    pub is_running: bool,
    /// Whether a pause waits for the next checkpoint.
    pub deferred_pause: bool,
    /// Whether an abort, stop or halt was requested.
    pub is_aborting: bool,
    /// Whether a halt was requested.
    pub is_halting: bool,
    /// Whether a graceful stop was requested.
    pub is_stopping: bool,
    /// Whether the operations of the current run are cancelled.
    pub cancelled: bool,
    /// Number of interrupt signals since the run call began.
    pub sigint_count: u8,
    /// Whether the signal handler is installed.
    pub signal_installed: bool,
    /// Whether interruptions are recorded as events.
    pub record_interruptions: bool,
    /// Whether messages are recorded for replay.
    pub rewindable: bool,
    /// Number of suspender ids handed out.
    pub suspender_count: u64,
    /// Number of subscription ids handed out.
    pub sub_counter: u64,
    /// Scan id of the latest run.
    pub scan_id: u64,
}

/// Hooks of the engine, by the handles under which the host keeps them.
#[derive(Copy, Clone, Debug)]
pub struct Hooks {
    /// Metadata validator.
    pub md_validator: Option<u64>,
    /// Metadata normalizer.
    pub md_normalizer: Option<u64>,
    /// Scan id source.
    pub scan_id_source: Option<u64>,
    /// Hook before each run call.
    pub before_plan: Option<u64>,
    /// Hook after each run call.
    pub after_plan: Option<u64>,
    /// Handler of input requests.
    pub input_handler: Option<u64>,
    /// Hook at each checkpoint.
    pub checkpoint_hook: Option<u64>,
    /// Limit on the duration of a whole run call.
    pub loop_timeout: Option<Span>,
}

/// One live monitor.
#[derive(Debug)]
pub struct MonitorTask {
    /// Stream that the monitor feeds.
    pub stream: String,
    /// Name of the monitored device.
    pub obj_name: String,
    /// Run that the monitor was started in.
    pub run_uid: String,
}

/// What a [`MonitorTask`] stands for.
pub struct MonitorView {
    /// Stream that the monitor feeds.
    pub stream: Seq<char>,
    /// Name of the monitored device.
    pub obj_name: Seq<char>,
    /// Run that the monitor was started in.
    pub run_uid: Seq<char>,
}

impl DeepView for MonitorTask {
    type V = MonitorView;

    open spec fn deep_view(&self) -> MonitorView {
        MonitorView { stream: self.stream@, obj_name: self.obj_name@, run_uid: self.run_uid@ }
    }
}

/// The run engine.
#[derive(Debug)]
pub struct RunEngine {
    control: Control,
    hooks: Hooks,
    bundler: Option<RunBundler>,
    groups: StrMap<Vec<u64>>,
    staged: Vec<ObjRef>,
    monitor_tasks: Vec<MonitorTask>,
    retired: StrMap<RunBundle>,
    movable_objs_touched: StrMap<ObjRef>,
    flyable_objs_touched: StrMap<ObjRef>,
    pausables: StrMap<ObjRef>,
    temp_subscribers: Vec<u64>,
    msg_cache: Vec<Msg>,
    replay_queue: Vec<Msg>,
    suspenders: Vec<u64>,
    md: StrMap<Json>,
    per_call_md: StrMap<Json>,
    subscribers: Vec<(u64, u64)>,
    staged_temp_subs: Vec<u64>,
    commands: StrMap<u64>,
    preprocessors: Vec<u64>,
    last_msg_result: MsgResult,
}

/// What a [`RunEngine`] stands for.
pub struct EngineView {
    /// Flags and counters.
    pub control: Control,
    /// Hooks.
    pub hooks: Hooks,
    /// The open run.
    pub bundler: Option<BundlerView>,
    /// Status handles of each wait group.
    pub groups: Map<Seq<char>, Seq<u64>>,
    /// Staged devices, in order.
    pub staged: Seq<ObjRef>,
    /// Live monitors.
    pub monitor_tasks: Seq<MonitorView>,
    /// Composers of closed runs that monitors still feed.
    pub retired: Map<Seq<char>, BundleView>,
    /// Devices that were set during the run call.
    pub movable_objs_touched: Map<Seq<char>, ObjView>,
    /// Devices that were kicked off during the run call.
    pub flyable_objs_touched: Map<Seq<char>, ObjView>,
    /// Devices with pause and resume hooks.
    pub pausables: Map<Seq<char>, ObjView>,
    /// Subscriptions that end with the run call.
    pub temp_subscribers: Seq<u64>,
    /// Messages recorded since the last checkpoint.
    pub msg_cache: Seq<Msg>,
    /// Messages to deliver again before the plan goes on.
    pub replay_queue: Seq<Msg>,
    /// Ids of the installed suspenders.
    pub suspenders: Seq<u64>,
    /// Persistent metadata.
    pub md: Map<Seq<char>, JsonView>,
    /// Metadata of the current run call.
    pub per_call_md: Map<Seq<char>, JsonView>,
    /// Subscription ids with the handles of their callbacks, in order.
    pub subscribers: Seq<(u64, u64)>,
    /// Subscriptions made for the next run call.
    pub staged_temp_subs: Seq<u64>,
    /// Custom command handlers.
    pub commands: Map<Seq<char>, u64>,
    /// Plan preprocessors, in order.
    pub preprocessors: Seq<u64>,
    /// Result of the message processed last.
    pub last_msg_result: MsgResultView,
}

impl View for RunEngine {
    type V = EngineView;

    closed spec fn view(&self) -> EngineView {
        EngineView {
            control: self.control,
            hooks: self.hooks,
            bundler: match self.bundler {
                Some(b) => Some(b@),
                None => None,
            },
            groups: self.groups@,
            staged: self.staged@,
            monitor_tasks: self.monitor_tasks.deep_view(),
            retired: self.retired@,
            movable_objs_touched: self.movable_objs_touched@,
            flyable_objs_touched: self.flyable_objs_touched@,
            pausables: self.pausables@,
            temp_subscribers: self.temp_subscribers@,
            msg_cache: self.msg_cache@,
            replay_queue: self.replay_queue@,
            suspenders: self.suspenders@,
            md: self.md@,
            per_call_md: self.per_call_md@,
            subscribers: self.subscribers@,
            staged_temp_subs: self.staged_temp_subs@,
            commands: self.commands@,
            preprocessors: self.preprocessors@,
            last_msg_result: self.last_msg_result@,
        }
    }
}

/// The flags and counters of a new engine.
pub open spec fn fresh_control() -> Control {
    Control {
        is_paused: false,
        is_running: false,
        deferred_pause: false,
        is_aborting: false,
        is_halting: false,
        is_stopping: false,
        cancelled: false,
        sigint_count: 0,
        signal_installed: false,
        record_interruptions: false,
        rewindable: false,
        suspender_count: 0,
        sub_counter: 0,
        scan_id: 0,
    }
}

/// The hooks of a new engine.
pub open spec fn fresh_hooks() -> Hooks {
    Hooks {
        md_validator: None,
        md_normalizer: None,
        scan_id_source: None,
        before_plan: None,
        after_plan: None,
        input_handler: None,
        checkpoint_hook: None,
        loop_timeout: None,
    }
}

/// A new engine.
pub open spec fn fresh_engine() -> EngineView {
    EngineView {
        control: fresh_control(),
        hooks: fresh_hooks(),
        bundler: None,
        groups: Map::empty(),
        staged: seq![],
        monitor_tasks: seq![],
        retired: Map::empty(),
        movable_objs_touched: Map::empty(),
        flyable_objs_touched: Map::empty(),
        pausables: Map::empty(),
        temp_subscribers: seq![],
        msg_cache: seq![],
        replay_queue: seq![],
        suspenders: seq![],
        md: Map::empty(),
        per_call_md: Map::empty(),
        subscribers: seq![],
        staged_temp_subs: seq![],
        commands: Map::empty(),
        preprocessors: seq![],
        last_msg_result: MsgResultView::Nothing,
    }
}

/// The moment at which a step is taken.
#[derive(Copy, Clone, Debug)]
pub struct Now {
    /// Unix epoch time in seconds.
    pub time: Double,
    /// Unix epoch time in nanoseconds.
    pub nanos: u64,
}

/// Something that the host carries out for the engine.
#[derive(Debug)]
#[allow(inconsistent_fields)]
pub enum Call {
    /// Ask the scan id source for an id; reply to `scan_id_chosen`.
    ScanIdSource {
        /// Handle of the source.
        source: u64,
        /// The merged metadata.
        merged: StrMap<Json>,
    },
    /// Ask the validator about the metadata; reply to `md_validated`.
    Validate {
        /// Handle of the validator.
        validator: u64,
        /// The merged metadata.
        merged: StrMap<Json>,
        /// The scan id of the run.
        scan_id: u64,
    },
    /// Let the normalizer rewrite the metadata; reply to `md_normalized`.
    Normalize {
        /// Handle of the normalizer.
        normalizer: u64,
        /// The merged metadata.
        merged: StrMap<Json>,
        /// The scan id of the run.
        scan_id: u64,
    },
    /// Read and describe a device; reply to `device_read`.
    Read {
        /// The device.
        obj: ObjRef,
    },
    /// Locate a device; reply to `device_located`.
    Locate {
        /// The device.
        obj: ObjRef,
    },
    /// Start a move; reply to `status_issued`.
    Move {
        /// The device.
        obj: ObjRef,
        /// The setpoint.
        value: Double,
        /// Wait group.
        group: Option<String>,
    },
    /// Trigger a device; reply to `status_issued`.
    Trigger {
        /// The device.
        obj: ObjRef,
        /// Wait group.
        group: Option<String>,
    },
    /// Kick a flyer off; reply to `status_issued`.
    Kickoff {
        /// The device.
        obj: ObjRef,
        /// Wait group.
        group: Option<String>,
    },
    /// Complete a flyer; reply to `status_issued`.
    Complete {
        /// The device.
        obj: ObjRef,
        /// Wait group.
        group: Option<String>,
    },
    /// Prepare a device; reply to `status_issued`.
    Prepare {
        /// The device.
        obj: ObjRef,
        /// Parameters.
        value: Arc<Json>,
        /// Wait group.
        group: Option<String>,
    },
    /// Await one status; reply to `status_ended`.
    AwaitStatus {
        /// Handle of the status.
        status: u64,
    },
    /// Stage a device; reply to `device_staged`.
    Stage {
        /// The device.
        obj: ObjRef,
    },
    /// Unstage a device; reply to `device_unstaged`.
    Unstage {
        /// The device.
        obj: ObjRef,
    },
    /// Stop a device; reply to `call_ended`.
    Stop {
        /// The device.
        obj: ObjRef,
        /// Whether the stop is planned.
        success: bool,
    },
    /// Configure a device; reply to `call_ended`.
    Configure {
        /// The device.
        obj: ObjRef,
        /// Arguments.
        args: Arc<ConfigureArgs>,
    },
    /// Describe what a device will collect; reply to `collect_described`.
    DescribeCollect {
        /// The device.
        obj: ObjRef,
        /// Stream name override.
        stream_name: Option<String>,
    },
    /// Collect the events of a device; reply to `events_collected`.
    CollectEvents {
        /// The device.
        obj: ObjRef,
        /// Stream name override.
        stream_name: Option<String>,
    },
    /// Describe a device to monitor; reply to `monitor_described`.
    DescribeMonitor {
        /// The stream to feed.
        stream: String,
        /// The device.
        obj: ObjRef,
    },
    /// Read a device to monitor, for the first event of its stream; reply to `monitor_read`.
    ReadMonitor {
        /// The stream to feed.
        stream: String,
        /// The device.
        obj: ObjRef,
        /// UID of the run that the monitor belongs to.
        run_uid: String,
    },
    /// Subscribe to a device to monitor; reply to `monitor_subscribed`.
    SubscribeMonitor {
        /// The stream to feed.
        stream: String,
        /// The device.
        obj: ObjRef,
        /// UID of the run that the monitor belongs to.
        run_uid: String,
    },
    /// Await the statuses of a group as a `GroupWait` says; reply to `group_ended` or
    /// `group_timed_out`.
    AwaitGroup {
        /// Handles of the statuses.
        members: Vec<u64>,
        /// Whether a failed or late status is an error.
        error_on_timeout: bool,
        /// Optional timeout.
        timeout: Option<Span>,
    },
    /// Sleep unless cancelled; reply to `slept`.
    Sleep {
        /// How long.
        span: Span,
    },
    /// Ask the user for a line; reply to `input_given`.
    Input {
        /// Handle of the input handler.
        handler: u64,
        /// The prompt.
        prompt: String,
    },
    /// Start watching a suspender; reply to `suspender_installed`.
    InstallSuspender {
        /// Id of the suspender.
        id: u64,
        /// Handle of the suspender.
        suspender: u64,
    },
    /// Await what the factories make as a `FactoryWait` says; reply to `factories_awaited`.
    WaitFor {
        /// Handles of the factories.
        factories: Arc<Vec<u64>>,
        /// Optional timeout.
        timeout: Option<Span>,
    },
    /// Run a custom command; reply to `call_ended`.
    Custom {
        /// Handle of the command handler.
        handler: u64,
        /// Handle of the payload.
        payload: u64,
    },
    /// Run the checkpoint hook; reply to `checkpoint_recorded`.
    Checkpoint {
        /// Handle of the hook.
        hook: u64,
        /// What the hook is given.
        snapshot: CheckpointSnapshot,
    },
}

/// How a step ends.
#[derive(Debug)]
pub enum Next {
    /// The message is processed; of an `OpenRun`, the UID of the run.
    Done(Option<String>),
    /// The message failed.
    Failed(CirrusError),
    /// The host carries out the call and hands its reply to the engine.
    Call(Call),
}

/// The answer of the engine to a message or a reply.
#[derive(Debug)]
pub struct Step {
    /// Documents to emit, in order.
    pub emit: Vec<Arc<Document>>,
    /// How the step ends.
    pub next: Next,
}

/// Whether a step emits nothing and ends in `next`.
pub open spec fn quiet(step: Step, next: Next) -> bool {
    step.emit@.len() == 0 && step.next == next
}

/// Whether a step emits nothing and is done without a run UID.
pub open spec fn done(step: Step) -> bool {
    quiet(step, Next::Done(None))
}

/// Whether a step emits nothing and fails with a plan error of the given message.
pub open spec fn refused(step: Step, message: Seq<char>) -> bool {
    &&& step.emit@.len() == 0
    &&& step.next matches Next::Failed(e) && crate::error::is_plan_error(e, message)
}

impl Step {
    /// A step that emits nothing.
    pub(crate) fn quiet(next: Next) -> (s: Step)
        ensures
            quiet(s, next),
    {
        Step { emit: Vec::new(), next }
    }

    /// A step that emits nothing and is done.
    pub(crate) fn done() -> (s: Step)
        ensures
            done(s),
    {
        Step { emit: Vec::new(), next: Next::Done(None) }
    }

    /// A step that emits nothing and refuses with a plan error.
    pub(crate) fn refused(message: &str) -> (s: Step)
        ensures
            refused(s, message@),
    {
        Step { emit: Vec::new(), next: Next::Failed(CirrusError::plan(message)) }
    }
}

impl EngineView {
    /// Whether the open run and the retired ones can number `n` more events per stream.
    pub open spec fn room(self, n: nat) -> bool {
        &&& self.bundler is Some ==> self.bundler->0.bundle.room(n)
        &&& forall|k: Seq<char>| #[trigger]
            self.retired.dom().contains(k) ==> self.retired[k].room(n)
    }
}

impl RunEngine {
    /// A new engine.
    pub fn new() -> (re: Self)
        ensures
            re@ == fresh_engine(),
    {
        let re = RunEngine {
            control: Control {
                is_paused: false,
                is_running: false,
                deferred_pause: false,
                is_aborting: false,
                is_halting: false,
                is_stopping: false,
                cancelled: false,
                sigint_count: 0,
                signal_installed: false,
                record_interruptions: false,
                rewindable: false,
                suspender_count: 0,
                sub_counter: 0,
                scan_id: 0,
            },
            hooks: Hooks {
                md_validator: None,
                md_normalizer: None,
                scan_id_source: None,
                before_plan: None,
                after_plan: None,
                input_handler: None,
                checkpoint_hook: None,
                loop_timeout: None,
            },
            bundler: None,
            groups: StrMap::new(),
            staged: Vec::new(),
            monitor_tasks: Vec::new(),
            retired: StrMap::new(),
            movable_objs_touched: StrMap::new(),
            flyable_objs_touched: StrMap::new(),
            pausables: StrMap::new(),
            temp_subscribers: Vec::new(),
            msg_cache: Vec::new(),
            replay_queue: Vec::new(),
            suspenders: Vec::new(),
            md: StrMap::new(),
            per_call_md: StrMap::new(),
            subscribers: Vec::new(),
            staged_temp_subs: Vec::new(),
            commands: StrMap::new(),
            preprocessors: Vec::new(),
            last_msg_result: MsgResult::Nothing,
        };
        assert(re@.monitor_tasks =~= Seq::empty());
        re
    }
}

impl Default for RunEngine {
    fn default() -> (re: Self)
        ensures
            re@ == fresh_engine(),
    {
        RunEngine::new()
    }
}

} // verus!
