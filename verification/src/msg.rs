//! The messages that plans yield to the run engine.

use std::sync::Arc;

use vstd::prelude::*;
use vstd::string::*;

use crate::documents::{DataKey, Document};
use crate::error::Span;
use crate::share::share;
use crate::strmap::StrMap;
use crate::text::{clone_opt, dec_u64, decimal, join3};
use crate::value::{Double, Duplicate, Json};

verus! {

/// Group identifier used to tie several statuses together for `Wait`.
pub type GroupId = String;

/// A device as a message names it: the handle under which the host keeps the device, and the
/// name of the device.
#[derive(Debug, PartialEq, Eq)]
pub struct ObjRef {
    /// Handle of the device.
    pub id: u64,
    /// Name of the device.
    pub name: String,
}

impl ObjRef {
    /// Another reference to the same device.
    pub fn again(&self) -> (r: ObjRef)
        ensures
            r == *self,
    {
        ObjRef { id: self.id, name: self.name.clone() }
    }
}

impl Clone for ObjRef {
    fn clone(&self) -> (r: ObjRef)
        ensures
            r == *self,
    {
        self.again()
    }
}

/// What an [`ObjRef`] stands for.
pub struct ObjView {
    /// Handle of the device.
    pub id: u64,
    /// Name of the device.
    pub name: Seq<char>,
}

impl DeepView for ObjRef {
    type V = ObjView;

    open spec fn deep_view(&self) -> ObjView {
        ObjView { id: self.id, name: self.name@ }
    }
}

impl Duplicate for ObjRef {
    fn duplicate(&self) -> (copy: Self) {
        self.again()
    }
}

/// Run-level metadata attached to `OpenRun`.
#[derive(Debug)]
pub struct RunMetadata {
    /// Optional user-supplied scan ID.
    pub scan_id: Option<u64>,
    /// Free-form metadata.
    pub extra: StrMap<Json>,
    /// Optional plan name.
    pub plan_name: Option<String>,
}

impl Default for RunMetadata {
    fn default() -> (m: Self)
        ensures
            m.scan_id is None,
            m.extra@ == Map::<Seq<char>, crate::value::JsonView>::empty(),
            m.plan_name is None,
    {
        RunMetadata { scan_id: None, extra: StrMap::new(), plan_name: None }
    }
}

/// Arguments passed to `Configure`.
#[derive(Debug)]
pub struct ConfigureArgs {
    /// Configuration values to apply.
    pub values: StrMap<Json>,
}

/// The commands that plans can issue. Devices, callbacks, suspenders, awaitable factories and
/// custom payloads are named by the handles under which the host keeps them.
#[derive(Debug)]
#[allow(inconsistent_fields)]
pub enum Msg {
    /// Open a new run; the engine emits `RunStart`.
    OpenRun(Arc<RunMetadata>),
    /// Close the current run; the engine emits `RunStop`.
    CloseRun {
        /// Final exit status.
        exit_status: String,
        /// Optional reason.
        reason: Option<String>,
    },
    /// Open a new event bundle for a stream.
    Create {
        /// Stream name.
        stream_name: String,
    },
    /// Save the open bundle.
    Save,
    /// Discard the open bundle.
    Drop,
    /// Declare a stream ahead of its events.
    DeclareStream {
        /// Stream name.
        stream_name: String,
        /// Its data keys.
        data_keys: Arc<StrMap<DataKey>>,
    },
    /// Read all signals of a device into the open bundle.
    Read(ObjRef),
    /// Set a movable to a value.
    SetValue {
        /// Target device.
        obj: ObjRef,
        /// Setpoint.
        value: Double,
        /// Optional group for `Wait`.
        group: Option<GroupId>,
    },
    /// Trigger a detector.
    Trigger {
        /// Triggerable device.
        obj: ObjRef,
        /// Optional group for `Wait`.
        group: Option<GroupId>,
    },
    /// Stage a device.
    Stage(ObjRef),
    /// Unstage a device.
    Unstage(ObjRef),
    /// Stop a device.
    Stop {
        /// Stoppable device.
        obj: ObjRef,
        /// Whether the stop is planned (`true`) or an emergency (`false`).
        success: bool,
    },
    /// Begin a fly-scan acquisition.
    Kickoff {
        /// Flyable device.
        obj: ObjRef,
        /// Optional group.
        group: Option<GroupId>,
    },
    /// Wait for a fly scan to finish.
    Complete {
        /// Flyable device.
        obj: ObjRef,
        /// Optional group.
        group: Option<GroupId>,
    },
    /// Collect documents from a flying detector.
    Collect {
        /// Collectable device.
        obj: ObjRef,
        /// Optional stream name override.
        stream_name: Option<String>,
    },
    /// Read setpoint and readback of a device.
    Locate(ObjRef),
    /// Subscribe a device's monitor stream.
    Monitor {
        /// Device.
        obj: ObjRef,
        /// Optional stream name.
        name: Option<String>,
    },
    /// Unsubscribe a device's monitor stream.
    Unmonitor(ObjRef),
    /// Wait for all statuses of a group to complete.
    Wait {
        /// Group to wait on.
        group: GroupId,
        /// Whether a failed or late status is an error.
        error_on_timeout: bool,
        /// Optional timeout.
        timeout: Option<Span>,
    },
    /// Sleep for a duration.
    Sleep(Span),
    /// Mark a checkpoint.
    Checkpoint,
    /// Drop the checkpoint cache.
    ClearCheckpoint,
    /// Request a pause.
    Pause {
        /// Whether to defer to the next checkpoint.
        defer: bool,
    },
    /// Configure a device.
    Configure {
        /// Target device.
        obj: ObjRef,
        /// Configuration arguments.
        args: Arc<ConfigureArgs>,
    },
    /// Prepare a device for a step or fly scan.
    Prepare {
        /// Target device.
        obj: ObjRef,
        /// Per-scan parameters.
        value: Arc<Json>,
        /// Optional group for `Wait`.
        group: Option<GroupId>,
    },
    /// Wait for awaitables, one after the other.
    WaitFor {
        /// Handles of the awaitable factories.
        factories: Arc<Vec<u64>>,
        /// Optional timeout.
        timeout: Option<Span>,
    },
    /// Register a device for pause and resume hooks.
    RegisterPausable(ObjRef),
    /// Remove a registered device.
    UnregisterPausable(ObjRef),
    /// Read a line of user input.
    Input {
        /// Prompt to display.
        prompt: String,
    },
    /// Ask the engine for its class name.
    ReClass,
    /// Add a temporary document subscriber, by the handle of its callback.
    Subscribe(u64),
    /// Remove a subscriber by its id.
    Unsubscribe(u64),
    /// Fail the current run with the given reason.
    Fail(String),
    /// Resume after a pause.
    Resume,
    /// Install a suspender.
    InstallSuspender {
        /// Identifier for later removal.
        id: u64,
        /// Handle of the suspender.
        suspender: u64,
    },
    /// Remove an installed suspender.
    RemoveSuspender {
        /// Identifier given at installation.
        id: u64,
    },
    /// Set whether the current region is rewindable.
    Rewindable(bool),
    /// Custom user command.
    Custom {
        /// Command name.
        name: String,
        /// Handle of the payload.
        payload: u64,
    },
    /// Publish a prepared document.
    Publish(Arc<Document>),
    /// No operation.
    Null,
}

/// Whether the engine records `m` for replay inside a rewindable region.
pub open spec fn cacheable(m: Msg) -> bool {
    ||| m is Create
    ||| m is Save
    ||| m is Drop
    ||| m is DeclareStream
    ||| m is Read
    ||| m is SetValue
    ||| m is Trigger
    ||| m is Stage
    ||| m is Unstage
    ||| m is Stop
    ||| m is Kickoff
    ||| m is Complete
    ||| m is Collect
    ||| m is Sleep
    ||| m is Prepare
    ||| m is WaitFor
}

/// The device that `m` targets.
pub open spec fn target(m: Msg) -> Option<ObjRef> {
    match m {
        Msg::Read(o) => Some(o),
        Msg::SetValue { obj, .. } => Some(obj),
        Msg::Trigger { obj, .. } => Some(obj),
        Msg::Locate(o) => Some(o),
        Msg::Stage(o) => Some(o),
        Msg::Unstage(o) => Some(o),
        Msg::Stop { obj, .. } => Some(obj),
        Msg::Kickoff { obj, .. } => Some(obj),
        Msg::Complete { obj, .. } => Some(obj),
        Msg::Collect { obj, .. } => Some(obj),
        Msg::Monitor { obj, .. } => Some(obj),
        Msg::Unmonitor(o) => Some(o),
        Msg::Configure { obj, .. } => Some(obj),
        Msg::Prepare { obj, .. } => Some(obj),
        Msg::RegisterPausable(o) => Some(o),
        Msg::UnregisterPausable(o) => Some(o),
        _ => None,
    }
}

/// What a copy of `m` is: `m` itself, but for a custom command, whose payload cannot be
/// copied, so that its copy is a no-op.
pub open spec fn copy_of(m: Msg) -> Msg {
    if m is Custom {
        Msg::Null
    } else {
        m
    }
}

impl Msg {
    /// Whether this message is recorded for replay when the engine is in a rewindable region.
    pub fn is_cacheable(&self) -> (yes: bool)
        ensures
            yes == cacheable(*self),
    {
        !matches!(
            self,
            Msg::OpenRun(_) | Msg::CloseRun { .. } | Msg::Wait { .. } | Msg::Pause { .. }
                | Msg::Resume | Msg::Checkpoint | Msg::ClearCheckpoint | Msg::Configure { .. }
                | Msg::Monitor { .. } | Msg::Unmonitor(_) | Msg::InstallSuspender { .. }
                | Msg::RemoveSuspender { .. } | Msg::RegisterPausable(_)
                | Msg::UnregisterPausable(_) | Msg::Rewindable(_) | Msg::Custom { .. }
                | Msg::Publish(_) | Msg::Locate(_) | Msg::Input { .. } | Msg::ReClass
                | Msg::Subscribe(_) | Msg::Unsubscribe(_) | Msg::Fail(_) | Msg::Null
        )
    }

    /// The name of the device that the message targets.
    pub fn obj_name(&self) -> (name: Option<&str>)
        ensures
            match name {
                Some(n) => target(*self) matches Some(o) && n@ == o.name@,
                None => target(*self) is None,
            },
    {
        match self {
            Msg::Read(o) => Some(o.name.as_str()),
            Msg::SetValue { obj, .. } => Some(obj.name.as_str()),
            Msg::Trigger { obj, .. } => Some(obj.name.as_str()),
            Msg::Locate(o) => Some(o.name.as_str()),
            Msg::Stage(o) => Some(o.name.as_str()),
            Msg::Unstage(o) => Some(o.name.as_str()),
            Msg::Stop { obj, .. } => Some(obj.name.as_str()),
            Msg::Kickoff { obj, .. } => Some(obj.name.as_str()),
            Msg::Complete { obj, .. } => Some(obj.name.as_str()),
            Msg::Collect { obj, .. } => Some(obj.name.as_str()),
            Msg::Monitor { obj, .. } => Some(obj.name.as_str()),
            Msg::Unmonitor(o) => Some(o.name.as_str()),
            Msg::Configure { obj, .. } => Some(obj.name.as_str()),
            Msg::Prepare { obj, .. } => Some(obj.name.as_str()),
            Msg::RegisterPausable(o) => Some(o.name.as_str()),
            Msg::UnregisterPausable(o) => Some(o.name.as_str()),
            _ => None,
        }
    }
}

impl Clone for Msg {
    fn clone(&self) -> (r: Self)
        ensures
            r == copy_of(*self),
    {
        match self {
            Msg::OpenRun(m) => Msg::OpenRun(share(m)),
            Msg::CloseRun { exit_status, reason } => Msg::CloseRun {
                exit_status: exit_status.clone(),
                reason: clone_opt(reason),
            },
            Msg::Create { stream_name } => Msg::Create { stream_name: stream_name.clone() },
            Msg::Save => Msg::Save,
            Msg::Drop => Msg::Drop,
            Msg::DeclareStream { stream_name, data_keys } => Msg::DeclareStream {
                stream_name: stream_name.clone(),
                data_keys: share(data_keys),
            },
            Msg::Read(o) => Msg::Read(o.again()),
            Msg::SetValue { obj, value, group } => Msg::SetValue {
                obj: obj.again(),
                value: *value,
                group: clone_opt(group),
            },
            Msg::Trigger { obj, group } => Msg::Trigger {
                obj: obj.again(),
                group: clone_opt(group),
            },
            Msg::Stage(o) => Msg::Stage(o.again()),
            Msg::Unstage(o) => Msg::Unstage(o.again()),
            Msg::Stop { obj, success } => Msg::Stop { obj: obj.again(), success: *success },
            Msg::Kickoff { obj, group } => Msg::Kickoff {
                obj: obj.again(),
                group: clone_opt(group),
            },
            Msg::Complete { obj, group } => Msg::Complete {
                obj: obj.again(),
                group: clone_opt(group),
            },
            Msg::Collect { obj, stream_name } => Msg::Collect {
                obj: obj.again(),
                stream_name: clone_opt(stream_name),
            },
            Msg::Monitor { obj, name } => Msg::Monitor {
                obj: obj.again(),
                name: clone_opt(name),
            },
            Msg::Unmonitor(o) => Msg::Unmonitor(o.again()),
            Msg::Wait { group, error_on_timeout, timeout } => Msg::Wait {
                group: group.clone(),
                error_on_timeout: *error_on_timeout,
                timeout: *timeout,
            },
            Msg::Sleep(d) => Msg::Sleep(*d),
            Msg::Checkpoint => Msg::Checkpoint,
            Msg::ClearCheckpoint => Msg::ClearCheckpoint,
            Msg::Pause { defer } => Msg::Pause { defer: *defer },
            Msg::Configure { obj, args } => Msg::Configure {
                obj: obj.again(),
                args: share(args),
            },
            Msg::Prepare { obj, value, group } => Msg::Prepare {
                obj: obj.again(),
                value: share(value),
                group: clone_opt(group),
            },
            Msg::WaitFor { factories, timeout } => Msg::WaitFor {
                factories: share(factories),
                timeout: *timeout,
            },
            Msg::RegisterPausable(o) => Msg::RegisterPausable(o.again()),
            Msg::UnregisterPausable(o) => Msg::UnregisterPausable(o.again()),
            Msg::Input { prompt } => Msg::Input { prompt: prompt.clone() },
            Msg::ReClass => Msg::ReClass,
            Msg::Subscribe(cb) => Msg::Subscribe(*cb),
            Msg::Unsubscribe(id) => Msg::Unsubscribe(*id),
            Msg::Fail(reason) => Msg::Fail(reason.clone()),
            Msg::Resume => Msg::Resume,
            Msg::InstallSuspender { id, suspender } => Msg::InstallSuspender {
                id: *id,
                suspender: *suspender,
            },
            Msg::RemoveSuspender { id } => Msg::RemoveSuspender { id: *id },
            Msg::Rewindable(b) => Msg::Rewindable(*b),
            Msg::Custom { .. } => Msg::Null,
            Msg::Publish(d) => Msg::Publish(share(d)),
            Msg::Locate(o) => Msg::Locate(o.again()),
            Msg::Null => Msg::Null,
        }
    }
}

/// Every message that the engine records can be copied without loss.
pub proof fn law_cacheable_copies_exactly(m: Msg)
    requires
        cacheable(m),
    ensures
        copy_of(m) == m,
{
}

/// How Rust's debug format renders a duration of `secs` seconds and `nanos` nanoseconds.
pub uninterp spec fn duration_debug(secs: u64, nanos: u32) -> Seq<char>;

/// Renders a duration in Rust's debug format.
///
/// Calls `format!` with `{:?}` on `std::time::Duration::new`. The text is named and not
/// described; it depends on the two numbers alone.
#[verifier::external_body]
fn debug_span(d: Span) -> (s: String)
    requires
        d.nanos < 1_000_000_000,
    ensures
        s@ == duration_debug(d.secs, d.nanos),
{
    format!("{:?}", std::time::Duration::new(d.secs, d.nanos))
}

/// How Rust's debug format renders a string.
pub uninterp spec fn str_debug(s: Seq<char>) -> Seq<char>;

/// Renders a string in Rust's debug format: quoted, with escapes.
///
/// Calls `format!` with `{:?}` on a `&str`. The text is named and not described; it depends
/// on the string alone.
#[verifier::external_body]
pub(crate) fn debug_str(text: &str) -> (s: String)
    ensures
        s@ == str_debug(text@),
{
    format!("{:?}", text)
}

/// The kind of a document, as logs name it.
pub open spec fn document_label_of(d: Document) -> Seq<char> {
    match d {
        Document::Start(_) => "RunStart"@,
        Document::Descriptor(_) => "EventDescriptor"@,
        Document::Event(_) => "Event"@,
        Document::EventPage(_) => "EventPage"@,
        Document::Resource(_) => "Resource"@,
        Document::Datum(_) => "Datum"@,
        Document::DatumPage(_) => "DatumPage"@,
        Document::StreamResource(_) => "StreamResource"@,
        Document::StreamDatum(_) => "StreamDatum"@,
        Document::Stop(_) => "RunStop"@,
    }
}

/// The kind of a document, as logs name it.
pub fn document_label(d: &Document) -> (label: &'static str)
    ensures
        label@ == document_label_of(*d),
{
    match d {
        Document::Start(_) => "RunStart",
        Document::Descriptor(_) => "EventDescriptor",
        Document::Event(_) => "Event",
        Document::EventPage(_) => "EventPage",
        Document::Resource(_) => "Resource",
        Document::Datum(_) => "Datum",
        Document::DatumPage(_) => "DatumPage",
        Document::StreamResource(_) => "StreamResource",
        Document::StreamDatum(_) => "StreamDatum",
        Document::Stop(_) => "RunStop",
    }
}

/// `true` or `false` in words.
pub open spec fn bool_text(b: bool) -> Seq<char> {
    if b {
        "true"@
    } else {
        "false"@
    }
}

/// `true` or `false` in words.
pub fn show_bool(b: bool) -> (s: &'static str)
    ensures
        s@ == bool_text(b),
{
    if b {
        "true"
    } else {
        "false"
    }
}

/// `head`, then `inside` in round brackets; `head` ends in the opening bracket.
pub open spec fn called(head: Seq<char>, inside: Seq<char>) -> Seq<char> {
    head + inside + ")"@
}

fn show_call(head: &str, inside: &str) -> (s: String)
    ensures
        s@ == called(head@, inside@),
{
    join3(head, inside, ")")
}

/// The log line of a message. `value_text` is the decimal rendering of the setpoint of a
/// `SetValue`; no other message uses it.
pub open spec fn msg_label(m: Msg, value_text: Seq<char>) -> Seq<char> {
    match m {
        Msg::OpenRun(_) => "OpenRun"@,
        Msg::CloseRun { exit_status, .. } => called("CloseRun("@, exit_status@),
        Msg::Create { stream_name } => called("Create("@, stream_name@),
        Msg::Save => "Save"@,
        Msg::Drop => "Drop"@,
        Msg::DeclareStream { stream_name, .. } => called("DeclareStream("@, stream_name@),
        Msg::Read(o) => called("Read("@, o.name@),
        Msg::SetValue { obj, .. } => called("Set("@, obj.name@ + ", "@ + value_text),
        Msg::Trigger { obj, .. } => called("Trigger("@, obj.name@),
        Msg::Stage(o) => called("Stage("@, o.name@),
        Msg::Unstage(o) => called("Unstage("@, o.name@),
        Msg::Stop { obj, success } => called("Stop("@, obj.name@ + ", success="@ + bool_text(success)),
        Msg::Kickoff { obj, .. } => called("Kickoff("@, obj.name@),
        Msg::Complete { obj, .. } => called("Complete("@, obj.name@),
        Msg::Collect { obj, .. } => called("Collect("@, obj.name@),
        Msg::Monitor { obj, .. } => called("Monitor("@, obj.name@),
        Msg::Unmonitor(o) => called("Unmonitor("@, o.name@),
        Msg::Wait { group, .. } => called("Wait("@, group@),
        Msg::Sleep(d) => called("Sleep("@, duration_debug(d.secs, d.nanos)),
        Msg::Checkpoint => "Checkpoint"@,
        Msg::ClearCheckpoint => "ClearCheckpoint"@,
        Msg::Pause { defer } => called("Pause(defer="@, bool_text(defer)),
        Msg::Configure { obj, .. } => called("Configure("@, obj.name@),
        Msg::Prepare { obj, .. } => called("Prepare("@, obj.name@),
        Msg::WaitFor { factories, .. } => called("WaitFor(n="@, decimal(factories@.len())),
        Msg::RegisterPausable(o) => called("RegisterPausable("@, o.name@),
        Msg::UnregisterPausable(o) => called("UnregisterPausable("@, o.name@),
        Msg::Input { prompt } => called("Input("@, str_debug(prompt@)),
        Msg::ReClass => "ReClass"@,
        Msg::Subscribe(_) => "Subscribe(<cb>)"@,
        Msg::Unsubscribe(id) => called("Unsubscribe("@, decimal(id as nat)),
        Msg::Fail(reason) => called("Fail("@, str_debug(reason@)),
        Msg::Resume => "Resume"@,
        Msg::InstallSuspender { id, .. } => called("InstallSuspender("@, decimal(id as nat)),
        Msg::RemoveSuspender { id } => called("RemoveSuspender("@, decimal(id as nat)),
        Msg::Rewindable(b) => called("Rewindable("@, bool_text(b)),
        Msg::Custom { name, .. } => called("Custom("@, name@),
        Msg::Publish(d) => called("Publish("@, document_label_of(*d)),
        Msg::Locate(o) => called("Locate("@, o.name@),
        Msg::Null => "Null"@,
    }
}

impl Msg {
    /// The log line of the message. `value_text` is the decimal rendering of the setpoint of
    /// a `SetValue`; no other message uses it.
    pub fn label(&self, value_text: &str) -> (s: String)
        requires
            self matches Msg::Sleep(d) ==> d.nanos < 1_000_000_000,
        ensures
            s@ == msg_label(*self, value_text@),
    {
        match self {
            Msg::OpenRun(_) => "OpenRun".to_owned(),
            Msg::CloseRun { exit_status, .. } => show_call("CloseRun(", exit_status),
            Msg::Create { stream_name } => show_call("Create(", stream_name),
            Msg::Save => "Save".to_owned(),
            Msg::Drop => "Drop".to_owned(),
            Msg::DeclareStream { stream_name, .. } => show_call("DeclareStream(", stream_name),
            Msg::Read(o) => show_call("Read(", &o.name),
            Msg::SetValue { obj, .. } => show_call("Set(", &join3(&obj.name, ", ", value_text)),
            Msg::Trigger { obj, .. } => show_call("Trigger(", &obj.name),
            Msg::Stage(o) => show_call("Stage(", &o.name),
            Msg::Unstage(o) => show_call("Unstage(", &o.name),
            Msg::Stop { obj, success } => show_call("Stop(", &join3(&obj.name, ", success=", show_bool(*success))),
            Msg::Kickoff { obj, .. } => show_call("Kickoff(", &obj.name),
            Msg::Complete { obj, .. } => show_call("Complete(", &obj.name),
            Msg::Collect { obj, .. } => show_call("Collect(", &obj.name),
            Msg::Monitor { obj, .. } => show_call("Monitor(", &obj.name),
            Msg::Unmonitor(o) => show_call("Unmonitor(", &o.name),
            Msg::Wait { group, .. } => show_call("Wait(", group),
            Msg::Sleep(d) => show_call("Sleep(", &debug_span(*d)),
            Msg::Checkpoint => "Checkpoint".to_owned(),
            Msg::ClearCheckpoint => "ClearCheckpoint".to_owned(),
            Msg::Pause { defer } => show_call("Pause(defer=", show_bool(*defer)),
            Msg::Configure { obj, .. } => show_call("Configure(", &obj.name),
            Msg::Prepare { obj, .. } => show_call("Prepare(", &obj.name),
            Msg::WaitFor { factories, .. } => show_call("WaitFor(n=", &dec_u64(factories.len() as u64)),
            Msg::RegisterPausable(o) => show_call("RegisterPausable(", &o.name),
            Msg::UnregisterPausable(o) => show_call("UnregisterPausable(", &o.name),
            Msg::Input { prompt } => show_call("Input(", &debug_str(prompt)),
            Msg::ReClass => "ReClass".to_owned(),
            Msg::Subscribe(_) => "Subscribe(<cb>)".to_owned(),
            Msg::Unsubscribe(id) => show_call("Unsubscribe(", &dec_u64(*id)),
            Msg::Fail(reason) => show_call("Fail(", &debug_str(reason)),
            Msg::Resume => "Resume".to_owned(),
            Msg::InstallSuspender { id, .. } => show_call("InstallSuspender(", &dec_u64(*id)),
            Msg::RemoveSuspender { id } => show_call("RemoveSuspender(", &dec_u64(*id)),
            Msg::Rewindable(b) => show_call("Rewindable(", show_bool(*b)),
            Msg::Custom { name, .. } => show_call("Custom(", name),
            Msg::Publish(d) => show_call("Publish(", document_label(d)),
            Msg::Locate(o) => show_call("Locate(", &o.name),
            Msg::Null => "Null".to_owned(),
        }
    }
}

/// A copy of a message is the message, in all its parts; only a custom command, whose payload
/// cannot be copied, leaves a no-op.
pub proof fn law_copy_is_the_message(m: Msg, c: Msg)
    requires
        call_ensures(<Msg as Clone>::clone, (&m,), c),
    ensures
        m !is Custom ==> c == m,
        m is Custom ==> c is Null,
{
}

/// What acts on devices or on the data of a run is replayed; what opens or ends a run, steers the
/// engine, waits for a group, or asks or tells someone outside is not.
pub proof fn law_what_is_replayed(m: &Msg, yes: bool)
    requires
        call_ensures(Msg::is_cacheable, (m,), yes),
    ensures
        match *m {
            Msg::OpenRun(_) | Msg::CloseRun { .. } => !yes,
            Msg::Checkpoint | Msg::ClearCheckpoint | Msg::Rewindable(_) => !yes,
            Msg::Pause { .. } | Msg::Resume | Msg::Fail(_) => !yes,
            Msg::InstallSuspender { .. } | Msg::RemoveSuspender { .. } => !yes,
            Msg::RegisterPausable(_) | Msg::UnregisterPausable(_) => !yes,
            Msg::Monitor { .. } | Msg::Unmonitor(_) | Msg::Configure { .. } => !yes,
            Msg::Subscribe(_) | Msg::Unsubscribe(_) | Msg::Publish(_) => !yes,
            Msg::Input { .. } | Msg::Custom { .. } | Msg::Locate(_) | Msg::ReClass => !yes,
            Msg::Wait { .. } | Msg::Null => !yes,
            _ => yes,
        },
{
}

/// The name of a message is that of the device it is for, and every message for a device shows
/// that name in the log.
pub proof fn law_message_names_its_device(
    m: &Msg,
    name: Option<&str>,
    value_text: &str,
    label: String,
)
    requires
        call_ensures(Msg::obj_name, (m,), name),
        call_ensures(Msg::label, (m, value_text), label),
    ensures
        match *m {
            Msg::Read(o)
            | Msg::Locate(o)
            | Msg::Stage(o)
            | Msg::Unstage(o)
            | Msg::Unmonitor(o)
            | Msg::RegisterPausable(o)
            | Msg::UnregisterPausable(o) => name matches Some(n) && n@ == o.name@,
            Msg::SetValue { obj, .. } => name matches Some(n) && n@ == obj.name@,
            Msg::Trigger { obj, .. } => name matches Some(n) && n@ == obj.name@,
            Msg::Stop { obj, .. } => name matches Some(n) && n@ == obj.name@,
            Msg::Kickoff { obj, .. } => name matches Some(n) && n@ == obj.name@,
            Msg::Complete { obj, .. } => name matches Some(n) && n@ == obj.name@,
            Msg::Collect { obj, .. } => name matches Some(n) && n@ == obj.name@,
            Msg::Monitor { obj, .. } => name matches Some(n) && n@ == obj.name@,
            Msg::Configure { obj, .. } => name matches Some(n) && n@ == obj.name@,
            Msg::Prepare { obj, .. } => name matches Some(n) && n@ == obj.name@,
            _ => name is None,
        },
        name matches Some(n) ==> shows(label@, n@),
        m is SetValue ==> shows(label@, value_text@),
        match *m {
            Msg::CloseRun { exit_status, .. } => shows(label@, exit_status@),
            Msg::Create { stream_name } => shows(label@, stream_name@),
            Msg::DeclareStream { stream_name, .. } => shows(label@, stream_name@),
            Msg::Wait { group, .. } => shows(label@, group@),
            Msg::Custom { name, .. } => shows(label@, name@),
            _ => true,
        },
{
    if let Some(o) = target(*m) {
        lemma_shows(*m, value_text@);
    }
    match *m {
        Msg::CloseRun { exit_status, .. } => {
            assert(label@ == "CloseRun("@ + exit_status@ + ")"@);
        },
        Msg::Create { stream_name } => {
            assert(label@ == "Create("@ + stream_name@ + ")"@);
        },
        Msg::DeclareStream { stream_name, .. } => {
            assert(label@ == "DeclareStream("@ + stream_name@ + ")"@);
        },
        Msg::Wait { group, .. } => {
            assert(label@ == "Wait("@ + group@ + ")"@);
        },
        Msg::Custom { name, .. } => {
            assert(label@ == "Custom("@ + name@ + ")"@);
        },
        _ => {},
    }
}

/// Whether `part` stands in `text`.
pub open spec fn shows(text: Seq<char>, part: Seq<char>) -> bool {
    exists|head: Seq<char>, tail: Seq<char>| text == #[trigger] (head + part + tail)
}

/// The log line of a message for a device shows the name of the device.
proof fn lemma_shows(m: Msg, value_text: Seq<char>)
    requires
        target(m) is Some,
    ensures
        shows(msg_label(m, value_text), target(m)->Some_0.name@),
        m is SetValue ==> shows(msg_label(m, value_text), value_text),
{
    let name = target(m)->Some_0.name@;
    let label = msg_label(m, value_text);
    match m {
        Msg::SetValue { .. } => {
            assert(label =~= "Set("@ + name + (", "@ + value_text + ")"@));
            assert(label =~= ("Set("@ + name + ", "@) + value_text + ")"@);
        },
        Msg::Stop { success, .. } => {
            assert(label =~= "Stop("@ + name + (", success="@ + bool_text(success) + ")"@));
        },
        Msg::Read(_) => {
            assert(label == "Read("@ + name + ")"@);
        },
        Msg::Trigger { .. } => {
            assert(label == "Trigger("@ + name + ")"@);
        },
        Msg::Locate(_) => {
            assert(label == "Locate("@ + name + ")"@);
        },
        Msg::Stage(_) => {
            assert(label == "Stage("@ + name + ")"@);
        },
        Msg::Unstage(_) => {
            assert(label == "Unstage("@ + name + ")"@);
        },
        Msg::Kickoff { .. } => {
            assert(label == "Kickoff("@ + name + ")"@);
        },
        Msg::Complete { .. } => {
            assert(label == "Complete("@ + name + ")"@);
        },
        Msg::Collect { .. } => {
            assert(label == "Collect("@ + name + ")"@);
        },
        Msg::Monitor { .. } => {
            assert(label == "Monitor("@ + name + ")"@);
        },
        Msg::Unmonitor(_) => {
            assert(label == "Unmonitor("@ + name + ")"@);
        },
        Msg::Configure { .. } => {
            assert(label == "Configure("@ + name + ")"@);
        },
        Msg::Prepare { .. } => {
            assert(label == "Prepare("@ + name + ")"@);
        },
        Msg::RegisterPausable(_) => {
            assert(label == "RegisterPausable("@ + name + ")"@);
        },
        _ => {
            assert(label == "UnregisterPausable("@ + name + ")"@);
        },
    }
}

} // verus!
