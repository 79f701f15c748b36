//! The engine, driven by messages and by scripted plans over soft devices.

use std::collections::BTreeMap;
use std::sync::Arc;

use cirrus::device::{LocatableObj, MovableObj, ReadableObj};
use cirrus::documents::{document_name, DataKey, Document, Dtype, RunStart, RunStop};
use cirrus::engine::control::SignalAction;
use cirrus::engine::fan_out::{FanNext, FanOut};
use cirrus::engine::lifecycle::Cleanup;
use cirrus::engine::replay::{Fetch, PauseActions};
use cirrus::engine::replies::{FactoryNext, FactoryWait, GroupNext, GroupWait, WaitEnd};
use cirrus::engine::run_loop::{Ask, RunLoop};
use cirrus::engine::{
    Call, CheckpointSnapshot, EngineRunState, MonitorTask, MsgResult, Next, Now, RunEngine,
    RunOptions, RunResult, Step,
};
use cirrus::error::{CirrusError, Span};
use cirrus::lua_bridge::{
    bridge_error, is_bridge_command, msg_result_to_lua, normalizer_outcome, validator_outcome,
    CoroutinePlan, PlanStep, Resume, Resumed,
};
use cirrus::lua_device::LuaDevice;
use cirrus::lua_engine::{run_reply, LuaRunEngine, PausableArg, ReMethod};
use cirrus::lua_msg::{build_msg, check_publish, AutoGroups, MetaTable, MsgCall, PublishKind};
use cirrus::lua_value::{LuaOut, LuaVal};
use cirrus::msg::{Msg, ObjRef, RunMetadata};
use cirrus::soft::SoftMotor;
use cirrus::soft_detector::SoftDetector;
use cirrus::status::{Status, StatusError, StatusOutcome};
use cirrus::strmap::StrMap;
use cirrus::value::{Double, Json};

fn number(v: f64) -> Double {
    Double { bits: v.to_bits() }
}

fn span(ms: u64) -> Span {
    Span { secs: ms / 1000, nanos: (ms % 1000) as u32 * 1_000_000 }
}

fn text(s: &str) -> Json {
    Json::Str(s.to_string())
}

/// A bench with soft devices that does what the engine asks for.
struct Lab {
    re: RunEngine,
    motors: BTreeMap<u64, SoftMotor>,
    dets: BTreeMap<u64, SoftDetector>,
    statuses: Vec<Status>,
    docs: Vec<Arc<Document>>,
    heard: Vec<(u64, String)>,
    pauses: Vec<PauseActions>,
    cleanups: Vec<Cleanup>,
    snapshots: Vec<CheckpointSnapshot>,
    factories: Vec<u64>,
    broken: Option<u64>,
    replaced: Vec<bool>,
    custom: Option<CirrusError>,
    scan_id: Option<CirrusError>,
    forbidden: Option<String>,
    normal: Option<(String, Json)>,
    slow: bool,
    clock: u64,
}

impl Lab {
    fn new() -> Lab {
        Lab {
            re: RunEngine::new(),
            motors: BTreeMap::new(),
            dets: BTreeMap::new(),
            statuses: Vec::new(),
            docs: Vec::new(),
            heard: Vec::new(),
            pauses: Vec::new(),
            cleanups: Vec::new(),
            snapshots: Vec::new(),
            factories: Vec::new(),
            broken: None,
            replaced: Vec::new(),
            custom: None,
            scan_id: None,
            forbidden: None,
            normal: None,
            slow: false,
            clock: 0,
        }
    }

    fn motor(&mut self, id: u64, name: &str, at: f64) -> ObjRef {
        self.motors.insert(id, SoftMotor::new(name, Some(number(at))));
        ObjRef { id, name: name.to_string() }
    }

    fn detector(&mut self, id: u64, name: &str) -> ObjRef {
        self.dets.insert(id, SoftDetector::new(name));
        ObjRef { id, name: name.to_string() }
    }

    fn now(&mut self) -> Now {
        self.clock += 1;
        Now { time: number(self.clock as f64), nanos: self.clock }
    }

    fn emit(&mut self, docs: Vec<Arc<Document>>) {
        for d in docs {
            for c in self.re.callbacks() {
                self.heard.push((c, document_name(&d).to_string()));
            }
            self.docs.push(d);
        }
    }

    fn keys(&self, obj: &ObjRef) -> StrMap<DataKey> {
        match self.motors.get(&obj.id) {
            Some(m) => m.describe_dyn().unwrap(),
            None => self.dets[&obj.id].describe_dyn().unwrap(),
        }
    }

    fn issue(&mut self, s: Status, group: Option<String>) -> Step {
        self.statuses.push(s);
        self.re.status_issued(self.statuses.len() as u64 - 1, group)
    }

    fn outcome(&self, id: u64) -> Result<(), StatusError> {
        self.statuses[id as usize].poll().expect("a status that has ended")
    }

    fn perform(&mut self, call: Call) -> Step {
        let now = self.now();
        match call {
            Call::ScanIdSource { merged, .. } => {
                let answer = match self.scan_id.take() {
                    Some(e) => Err(e),
                    None => Ok(99),
                };
                self.re.scan_id_chosen(merged, answer, now)
            }
            Call::Validate { merged, scan_id, .. } => {
                let refused = self
                    .forbidden
                    .as_ref()
                    .filter(|k| merged.contains_key(k))
                    .map(|k| format!("{k} is forbidden"));
                let answer = validator_outcome(Ok(refused));
                self.re.md_validated(merged, scan_id, answer, now)
            }
            Call::Normalize { merged, scan_id, .. } => {
                let mut merged = merged;
                if let Some((k, v)) = self.normal.take() {
                    merged.insert(k, v);
                }
                self.re.md_normalized(scan_id, Ok(merged), now)
            }
            Call::Read { obj } => {
                let keys = self.keys(&obj);
                let (readings, hints) = match self.motors.get(&obj.id) {
                    Some(m) => (m.read_dyn(now.time), m.hint_fields()),
                    None => {
                        let d = &self.dets[&obj.id];
                        (d.read_dyn(now.time), d.hint_fields())
                    }
                };
                self.re.device_read(&obj, readings, Ok(keys), hints)
            }
            Call::Locate { obj } => {
                let at = self.motors[&obj.id].locate_dyn().map(|l| (l.setpoint, l.readback));
                self.re.device_located(at)
            }
            Call::Move { obj, value, group } => {
                let (s, _) = self.motors.get_mut(&obj.id).unwrap().set_dyn(value);
                self.issue(s, group)
            }
            Call::Trigger { obj, group } => {
                self.dets.get_mut(&obj.id).unwrap().tick();
                self.issue(Status::done(), group)
            }
            Call::Kickoff { group, .. } | Call::Complete { group, .. } => {
                self.issue(Status::done(), group)
            }
            Call::Prepare { group, .. } => self.issue(Status::fail(StatusError::Timeout), group),
            Call::AwaitStatus { status } => {
                let r = self.outcome(status);
                self.re.status_ended(r)
            }
            Call::Stage { obj } => self.re.device_staged(obj, Ok(())),
            Call::Unstage { obj } => self.re.device_unstaged(&obj, Ok(())),
            Call::Stop { .. } | Call::Configure { .. } => self.re.call_ended(Ok(())),
            Call::Custom { .. } => {
                let r = match self.custom.take() {
                    Some(e) => Err(e),
                    None => Ok(()),
                };
                self.re.call_ended(r)
            }
            Call::DescribeCollect { obj, stream_name } => {
                let mut descs = StrMap::new();
                descs.insert(obj.name.clone(), self.keys(&obj));
                self.re.collect_described(obj, stream_name, Ok(descs), now)
            }
            Call::CollectEvents { obj, stream_name } => {
                let row = || (obj.name.clone(), StrMap::new(), StrMap::new());
                self.re.events_collected(stream_name, Ok(vec![row(), row()]), now)
            }
            Call::DescribeMonitor { stream, obj } => {
                let keys = self.keys(&obj);
                self.re.monitor_described(stream, obj, Ok(keys), now)
            }
            Call::ReadMonitor { stream, obj, run_uid } => {
                let readings = self.motors[&obj.id].read_dyn(now.time);
                self.re.monitor_read(stream, obj, run_uid, readings, now)
            }
            Call::SubscribeMonitor { stream, obj, run_uid } => {
                let (step, replaced) = self.re.monitor_subscribed(stream, &obj, run_uid, Ok(()));
                self.replaced.push(replaced);
                step
            }
            Call::AwaitGroup { members, error_on_timeout, timeout } => match timeout {
                Some(limit) if self.slow => self.re.group_timed_out(error_on_timeout, limit),
                _ => {
                    let mut wait = GroupWait::new(members, error_on_timeout);
                    let mut next = wait.begin();
                    loop {
                        match next {
                            GroupNext::Await(m) => next = wait.member_ended(self.outcome(m)),
                            GroupNext::Over(r) => return self.re.group_ended(r),
                        }
                    }
                }
            },
            Call::Sleep { .. } => {
                let cancelled = self.re.is_cancelled();
                self.re.slept(cancelled)
            }
            Call::Input { prompt, .. } => self.re.input_given(Ok(format!("answer:{prompt}"))),
            Call::InstallSuspender { id, .. } => self.re.suspender_installed(id, true),
            Call::WaitFor { factories, .. } => {
                let mut wait = FactoryWait::new(factories);
                let mut next = wait.begin();
                loop {
                    match next {
                        FactoryNext::Await(f) => {
                            self.factories.push(f);
                            let r = match self.broken {
                                Some(b) if b == f => Err(CirrusError::Backend(format!("f{f}"))),
                                _ => Ok(()),
                            };
                            next = wait.factory_ended(r);
                        }
                        FactoryNext::Over(r) => {
                            return self.re.factories_awaited(WaitEnd::Finished(r))
                        }
                    }
                }
            }
            Call::Checkpoint { snapshot, .. } => {
                self.snapshots.push(snapshot);
                self.re.checkpoint_recorded()
            }
        }
    }

    fn process(&mut self, lp: &mut RunLoop, m: Msg) {
        assert!(self.re.can_handle(&m));
        let now = self.now();
        let mut step = self.re.handle(m, now);
        loop {
            self.emit(step.emit);
            match lp.advance(step.next) {
                Some(call) => step = self.perform(call),
                None => return,
            }
        }
    }

    fn drive(&mut self, plan: &mut dyn FnMut(&mut Lab) -> Option<Msg>) -> RunResult {
        self.re.begin_run();
        assert_eq!(self.re.state(), EngineRunState::Running);
        let mut lp = RunLoop::new();
        loop {
            let mut ask = lp.ask(&mut self.re);
            if let Ask::Plan = ask {
                let m = plan(self);
                ask = lp.yielded(&mut self.re, m);
            }
            match ask {
                Ask::Pause(actions) => {
                    self.pauses.push(actions);
                    let now = self.now();
                    let doc = self.re.record_pause(now);
                    self.emit(doc.into_iter().collect());
                    self.re.resume();
                    self.re.on_resume();
                    let doc = self.re.record_resume(now);
                    self.emit(doc.into_iter().collect());
                }
                Ask::Process(m) => self.process(&mut lp, m),
                Ask::Plan | Ask::End => break,
            }
        }
        let now = self.now();
        let (result, docs) = lp.finish(&mut self.re, now);
        self.emit(docs);
        let cleanup = self.re.start_cleanup();
        self.cleanups.push(cleanup);
        self.re.end_run();
        result
    }

    fn run(&mut self, msgs: Vec<Msg>) -> RunResult {
        let mut left = msgs.into_iter();
        self.drive(&mut |_| left.next())
    }

    fn names(&self) -> Vec<&'static str> {
        self.docs.iter().map(|d| document_name(d)).collect()
    }

    fn start(&self) -> &RunStart {
        self.docs
            .iter()
            .find_map(|d| match &**d {
                Document::Start(s) => Some(s),
                _ => None,
            })
            .expect("a start document")
    }

    fn stop(&self) -> &RunStop {
        self.docs
            .iter()
            .rev()
            .find_map(|d| match &**d {
                Document::Stop(s) => Some(s),
                _ => None,
            })
            .expect("a stop document")
    }
}

fn open() -> Msg {
    Msg::OpenRun(Arc::new(RunMetadata::default()))
}

fn close() -> Msg {
    Msg::CloseRun { exit_status: "success".into(), reason: None }
}

fn create() -> Msg {
    Msg::Create { stream_name: "primary".into() }
}

fn count(det: &ObjRef, n: usize) -> Vec<Msg> {
    let mut v = vec![open()];
    for _ in 0..n {
        v.extend([
            Msg::Trigger { obj: det.clone(), group: None },
            create(),
            Msg::Read(det.clone()),
            Msg::Save,
        ]);
    }
    v.push(close());
    v
}

#[test]
fn a_count_gives_its_documents_in_order() {
    let mut lab = Lab::new();
    let det = lab.detector(1, "zd");
    let r = lab.run(count(&det, 3));
    assert_eq!(r.exit_status, "success");
    assert_eq!(lab.names(), vec!["start", "descriptor", "event", "event", "event", "stop"]);
    assert_eq!(r.run_uid.as_deref(), Some(lab.start().uid.as_str()));
    assert_eq!(lab.stop().num_events.get("primary"), Some(&3));
    let counts: Vec<Option<i64>> = lab
        .docs
        .iter()
        .filter_map(|d| match &**d {
            Document::Event(e) => Some(e.data.get("zd_counts").unwrap().as_i64()),
            _ => None,
        })
        .collect();
    assert_eq!(counts, vec![Some(1), Some(2), Some(3)]);
}

#[test]
fn count_plan_runs_in_repl() {
    let mut lab = Lab::new();
    let det = lab.detector(1, "det1");
    let r = lab.run(count(&det, 3));
    let shown = run_reply(Ok(r)).unwrap();
    assert!(shown.contains("exit_status=success"), "{shown}");
}

#[test]
fn sleep_and_null_plans() {
    let mut lab = Lab::new();
    for plan in [vec![Msg::Null], vec![Msg::Sleep(span(10))]] {
        let shown = run_reply(Ok(lab.run(plan))).unwrap();
        assert!(shown.contains("no-run"), "{shown}");
    }
    assert!(lab.docs.is_empty());
}

#[test]
fn scan_with_motor() {
    let mut lab = Lab::new();
    let det = lab.detector(1, "det1");
    let m1 = lab.motor(2, "m1", 0.0);
    let mut msgs = vec![open()];
    for i in 0..4 {
        msgs.extend([
            Msg::SetValue {
                obj: m1.clone(),
                value: number(i as f64 / 3.0),
                group: Some("main".into()),
            },
            Msg::Wait { group: "main".into(), error_on_timeout: true, timeout: None },
            create(),
            Msg::Read(m1.clone()),
            Msg::Read(det.clone()),
            Msg::Save,
        ]);
    }
    msgs.push(close());
    let r = lab.run(msgs);
    assert_eq!(r.exit_status, "success");
    assert_eq!(lab.names().len(), 7);
    assert_eq!(lab.cleanups[0].movables, vec![m1]);
}

#[test]
fn an_open_run_is_closed_at_the_end() {
    let mut lab = Lab::new();
    let r = lab.run(vec![open()]);
    assert_eq!(r.exit_status, "success");
    assert_eq!(lab.names(), vec!["start", "stop"]);
    assert_eq!(lab.stop().run_start, lab.start().uid);
}

#[test]
fn a_failing_message_ends_the_run_as_a_failure() {
    let mut lab = Lab::new();
    let r = lab.run(vec![open(), Msg::Fail("broken".into()), Msg::Null]);
    assert_eq!(r.exit_status, "fail");
    assert_eq!(lab.stop().exit_status, "fail");
    assert_eq!(lab.stop().reason.as_deref(), Some("broken"));
}

#[test]
fn messages_out_of_place_are_refused() {
    let plan = |lab: &mut Lab, m: Msg| {
        let mut lp = RunLoop::new();
        lab.process(&mut lp, m);
        match lp.failure {
            Some(CirrusError::Plan(m)) => m,
            f => panic!("{f:?}"),
        }
    };
    let mut lab = Lab::new();
    let det = lab.detector(1, "d");
    assert!(!plan(&mut lab, create()).is_empty());
    assert!(!plan(&mut lab, Msg::Save).is_empty());
    assert!(!plan(&mut lab, Msg::Drop).is_empty());
    assert_eq!(
        plan(&mut lab, Msg::Monitor { obj: det, name: None }),
        "Monitor with no open run"
    );
    let mut lp = RunLoop::new();
    lab.process(&mut lp, Msg::Input { prompt: "?".into() });
    assert!(lp.failure.is_some());
    let mut lp = RunLoop::new();
    lab.process(&mut lp, Msg::Custom { name: "x".into(), payload: 0 });
    assert!(lp.failure.is_some());
}

#[test]
fn aborts_stops_and_halts_differ_in_their_status() {
    for (how, status, reason) in [
        (0, "abort", Some("user-requested abort")),
        (1, "success", Some("user-requested stop")),
        (2, "halt", None),
    ] {
        let mut lab = Lab::new();
        let mut sent = 0;
        let r = lab.drive(&mut |lab| {
            sent += 1;
            if sent == 2 {
                match how {
                    0 => lab.re.abort(),
                    1 => lab.re.stop(),
                    _ => lab.re.halt(),
                }
                assert!(lab.re.is_cancelled());
            }
            Some(if sent == 1 { open() } else { Msg::Fail("never processed".into()) })
        });
        assert_eq!(r.exit_status, status);
        assert_eq!(lab.stop().exit_status, status);
        assert_eq!(lab.stop().reason.as_deref(), reason);
        assert_eq!(lab.run(vec![open(), close()]).exit_status, "success");
    }
}

#[test]
fn an_interrupted_sleep_closes_the_run_as_requested() {
    for (how, status, reason) in [
        (0, "abort", Some("user-requested abort")),
        (1, "success", Some("user-requested stop")),
        (2, "halt", None),
    ] {
        let mut lab = Lab::new();
        lab.re.begin_run();
        let mut lp = RunLoop::new();
        lab.process(&mut lp, open());
        let now = lab.now();
        let step = lab.re.handle(Msg::Sleep(span(60_000)), now);
        let call = lp.advance(step.next).expect("a sleep to carry out");
        match how {
            0 => lab.re.abort(),
            1 => lab.re.stop(),
            _ => lab.re.halt(),
        }
        let step = lab.perform(call);
        assert!(matches!(&step.next, Next::Failed(CirrusError::Cancelled)));
        assert!(lp.advance(step.next).is_none());
        assert!(matches!(lp.ask(&mut lab.re), Ask::End));
        let now = lab.now();
        let (r, docs) = lp.finish(&mut lab.re, now);
        lab.emit(docs);
        assert_eq!(r.exit_status, status);
        assert_eq!(lab.stop().exit_status, status);
        assert_eq!(lab.stop().reason.as_deref(), reason);
    }
}

#[test]
fn a_cancelled_wait_fails_the_run_that_nobody_interrupted() {
    let mut lab = Lab::new();
    lab.re.begin_run();
    let mut lp = RunLoop::new();
    lab.process(&mut lp, open());
    lp.advance(Next::Failed(CirrusError::Cancelled));
    let now = lab.now();
    let (r, docs) = lp.finish(&mut lab.re, now);
    lab.emit(docs);
    assert_eq!(r.exit_status, "fail");
    assert_eq!(lab.stop().reason.as_deref(), Some("cancelled"));
}

#[test]
fn three_taps_pause_abort_and_halt() {
    let mut re = RunEngine::new();
    re.begin_run();
    assert_eq!(re.on_signal(), SignalAction::Pause);
    assert_eq!(re.state(), EngineRunState::Paused);
    assert_eq!(re.on_signal(), SignalAction::Abort);
    assert_eq!(re.state(), EngineRunState::Aborting);
    assert_eq!(re.on_signal(), SignalAction::Halt);
    assert_eq!(re.state(), EngineRunState::Halting);
    assert_eq!(re.on_signal(), SignalAction::Halt);
}

#[test]
fn outside_a_run_call_the_engine_is_idle() {
    let mut lab = Lab::new();
    lab.re.pause(false);
    assert_eq!(lab.re.state(), EngineRunState::Idle);
    assert!(lab.re.is_paused());
    lab.drive(&mut |lab| {
        lab.re.abort();
        assert_eq!(lab.re.state(), EngineRunState::Aborting);
        Some(Msg::Null)
    });
    assert_eq!(lab.re.state(), EngineRunState::Idle);
}

#[test]
fn a_halt_leaves_devices_alone() {
    for (halts, left) in [(true, 0), (false, 1)] {
        let mut lab = Lab::new();
        let m = lab.motor(1, "m", 0.0);
        let mut sent = 0;
        lab.drive(&mut |lab| {
            sent += 1;
            match sent {
                1 => Some(Msg::Stage(m.clone())),
                2 => Some(Msg::SetValue { obj: m.clone(), value: number(1.0), group: None }),
                _ => {
                    if halts {
                        lab.re.halt();
                    } else {
                        lab.re.abort();
                    }
                    None
                }
            }
        });
        assert_eq!(lab.cleanups[0].staged.len(), left);
        assert_eq!(lab.cleanups[0].movables.len(), left);
    }
}

#[test]
fn a_closed_run_is_not_replayed() {
    let mut lab = Lab::new();
    let det = lab.detector(1, "d");
    let mut sent = 0;
    let r = lab.drive(&mut |lab| {
        sent += 1;
        match sent {
            1 => Some(open()),
            2 => Some(Msg::Checkpoint),
            3 => Some(create()),
            4 => Some(Msg::Read(det.clone())),
            5 => Some(Msg::Save),
            6 => Some(close()),
            7 => {
                lab.re.pause(false);
                Some(Msg::Null)
            }
            _ => None,
        }
    });
    assert_eq!(r.exit_status, "success");
    assert_eq!(lab.pauses.len(), 1);
    assert_eq!(lab.names(), vec!["start", "descriptor", "event", "stop"]);
}

#[test]
fn one_signal_watcher_is_started() {
    let mut re = RunEngine::new();
    assert!(re.install_signal_handler());
    assert!(!re.install_signal_handler());
}

#[test]
fn resuming_replays_since_the_checkpoint() {
    let mut lab = Lab::new();
    let det = lab.detector(1, "d");
    let mut sent = 0;
    let r = lab.drive(&mut |lab| {
        sent += 1;
        match sent {
            1 => Some(open()),
            2 => Some(Msg::Checkpoint),
            3 => Some(create()),
            4 => Some(Msg::Read(det.clone())),
            5 => Some(Msg::Save),
            6 => {
                lab.re.pause(false);
                Some(Msg::Null)
            }
            7 => Some(close()),
            _ => None,
        }
    });
    assert_eq!(r.exit_status, "success");
    assert_eq!(lab.pauses.len(), 1);
    assert_eq!(lab.names(), vec!["start", "descriptor", "event", "event", "stop"]);
    assert_eq!(lab.stop().num_events.get("primary"), Some(&2));
}

#[test]
fn every_resume_replays_since_the_checkpoint() {
    let mut re = RunEngine::new();
    re.begin_run();
    re.handle(Msg::Checkpoint, Now { time: number(0.0), nanos: 0 });
    let yielded = [create(), Msg::Null, Msg::Save, Msg::Sleep(span(1))];
    for m in &yielded {
        re.plan_yielded(m);
    }
    let replays = |re: &mut RunEngine, n: usize| {
        let mut labels = Vec::new();
        while labels.len() < n {
            match re.next_msg() {
                Fetch::Replay(m) => labels.push(m.label("")),
                _ => break,
            }
        }
        labels
    };
    let pause = |re: &mut RunEngine| {
        re.pause(false);
        assert!(matches!(re.next_msg(), Fetch::Paused));
        re.resume();
        re.on_resume();
    };
    let all = vec![create().label(""), Msg::Save.label(""), Msg::Sleep(span(1)).label("")];
    for _ in 0..3 {
        pause(&mut re);
        assert_eq!(replays(&mut re, 9), all);
        assert!(matches!(re.next_msg(), Fetch::Plan));
    }
    pause(&mut re);
    assert_eq!(replays(&mut re, 1), all[..1]);
    pause(&mut re);
    assert_eq!(replays(&mut re, 9), all);
    re.plan_yielded(&Msg::Drop);
    pause(&mut re);
    assert_eq!(replays(&mut re, 9).len(), 4);
    re.handle(Msg::Checkpoint, Now { time: number(0.0), nanos: 0 });
    pause(&mut re);
    assert!(matches!(re.next_msg(), Fetch::Plan));
}

#[test]
fn a_deferred_pause_waits_for_the_checkpoint() {
    let mut lab = Lab::new();
    lab.re.begin_run();
    lab.re.request_pause(true);
    assert!(!lab.re.is_paused());
    let mut lp = RunLoop::new();
    lab.process(&mut lp, Msg::Checkpoint);
    assert!(lab.re.is_paused());
    lab.re.resume();
    assert!(!lab.re.is_paused());
}

#[test]
fn checkpoints_reach_the_hook() {
    let mut lab = Lab::new();
    lab.re.set_checkpoint_hook(4);
    lab.run(vec![Msg::Checkpoint, open(), Msg::Checkpoint, close()]);
    assert_eq!(lab.snapshots.len(), 2);
    assert_eq!(lab.snapshots[0].run_uid, None);
    assert_eq!(lab.snapshots[1].run_uid.as_deref(), Some(lab.start().uid.as_str()));
}

#[test]
fn interruptions_are_recorded_on_request() {
    let mut lab = Lab::new();
    lab.re.set_record_interruptions(true);
    let mut sent = 0;
    lab.drive(&mut |lab| {
        sent += 1;
        match sent {
            1 => Some(open()),
            2 => {
                lab.re.pause(false);
                Some(Msg::Null)
            }
            3 => Some(close()),
            _ => None,
        }
    });
    let marks: Vec<String> = lab
        .docs
        .iter()
        .filter_map(|d| match &**d {
            Document::Event(e) => e.data.get("interruption").and_then(|j| j.as_str()).cloned(),
            _ => None,
        })
        .collect();
    assert_eq!(marks, vec!["pause", "resume"]);
}

#[test]
fn scan_ids_count_up() {
    let mut lab = Lab::new();
    for n in 1..=3 {
        lab.docs.clear();
        lab.run(vec![open(), close()]);
        assert_eq!(lab.start().scan_id, Some(n));
    }
    lab.docs.clear();
    let meta = RunMetadata { scan_id: Some(40), ..RunMetadata::default() };
    lab.run(vec![Msg::OpenRun(Arc::new(meta)), close()]);
    assert_eq!(lab.start().scan_id, Some(40));
    lab.docs.clear();
    lab.run(vec![open(), close()]);
    assert_eq!(lab.start().scan_id, Some(41));
}

#[test]
fn the_metadata_hold_the_next_scan_id() {
    let mut lab = Lab::new();
    assert!(!lab.re.md().contains_key("scan_id"));
    for n in 1..=2 {
        lab.docs.clear();
        lab.run(vec![open(), close()]);
        assert_eq!(lab.start().extra.get("scan_id").and_then(|j| j.as_i64()), Some(n));
        assert_eq!(lab.re.md().get("scan_id").and_then(|j| j.as_i64()), Some(n + 1));
    }
    let meta = RunMetadata { scan_id: Some(40), ..RunMetadata::default() };
    lab.run(vec![Msg::OpenRun(Arc::new(meta)), open()]);
    assert_eq!(lab.re.md().get("scan_id").and_then(|j| j.as_i64()), Some(41));
    let meta = RunMetadata { scan_id: Some(u64::MAX), ..RunMetadata::default() };
    lab.run(vec![Msg::OpenRun(Arc::new(meta)), close()]);
    assert_eq!(lab.re.md().get("scan_id").and_then(|j| j.as_i64()), Some(41));
}

#[test]
fn metadata_of_the_message_wins() {
    let mut lab = Lab::new();
    lab.re.md_set("a".into(), text("engine"));
    lab.re.md_set("b".into(), text("engine"));
    lab.re.md_set("c".into(), text("engine"));
    let mut md = StrMap::new();
    md.insert("b".into(), text("call"));
    md.insert("c".into(), text("call"));
    lab.re.stage_options(RunOptions { md, subs: vec![] });
    let mut meta = RunMetadata { plan_name: Some("p".into()), ..RunMetadata::default() };
    meta.extra.insert("c".into(), text("message"));
    lab.run(vec![Msg::OpenRun(Arc::new(meta)), close()]);
    let extra = |k: &str| lab.start().extra.get(k).and_then(|j| j.as_str()).unwrap().clone();
    assert_eq!(extra("a"), "engine");
    assert_eq!(extra("b"), "call");
    assert_eq!(extra("c"), "message");
    assert_eq!(extra("plan_name"), "p");
}

#[test]
fn re_run_async_with_per_call_md_lands_in_runstart() {
    let mut lab = Lab::new();
    let mut md = StrMap::new();
    md.insert("operator".into(), text("carol"));
    lab.re.stage_options(RunOptions { md, subs: vec![] });
    lab.run(vec![open(), close()]);
    assert_eq!(lab.start().extra.get("operator").unwrap().as_str().unwrap(), "carol");
    lab.docs.clear();
    lab.run(vec![open(), close()]);
    assert!(lab.start().extra.get("operator").is_none());
}

#[test]
fn subscribers_hear_every_document() {
    let mut lab = Lab::new();
    let det = lab.detector(1, "d");
    let id = lab.re.subscribe(70);
    lab.run(count(&det, 1));
    assert_eq!(lab.heard.len(), 4);
    lab.re.unsubscribe(id);
    lab.run(count(&det, 1));
    assert_eq!(lab.heard.len(), 4);
}

#[test]
fn the_metadata_of_a_call_reach_every_run_of_it() {
    let mut lab = Lab::new();
    lab.re.set_scan_id_source(Some(1));
    lab.re.set_md_validator(Some(1));
    let mut md = StrMap::new();
    md.insert("operator".into(), text("carol"));
    lab.re.stage_options(RunOptions { md, subs: vec![5] });
    lab.run(vec![open(), close(), open(), close()]);
    let operators = |lab: &Lab| {
        lab.docs
            .iter()
            .filter_map(|d| match &**d {
                Document::Start(s) => Some(s.extra.get("operator").is_some()),
                _ => None,
            })
            .collect::<Vec<bool>>()
    };
    assert_eq!(operators(&lab), vec![true, true]);
    assert_eq!(lab.heard.len(), 4);
    lab.docs.clear();
    lab.run(vec![open(), close()]);
    assert_eq!(operators(&lab), vec![false]);
    assert_eq!(lab.heard.len(), 4);
}

#[test]
fn temporary_subscribers_last_one_call() {
    let mut lab = Lab::new();
    lab.re.stage_options(RunOptions { md: StrMap::new(), subs: vec![7, 8] });
    lab.run(vec![Msg::Subscribe(9), open(), close()]);
    let of = |lab: &Lab, c: u64| lab.heard.iter().filter(|h| h.0 == c).count();
    assert_eq!((of(&lab, 7), of(&lab, 8), of(&lab, 9)), (2, 2, 2));
    lab.run(vec![open(), close()]);
    assert_eq!((of(&lab, 7), of(&lab, 8), of(&lab, 9)), (2, 2, 2));
    assert!(lab.re.callbacks().is_empty());
}

#[test]
fn re_set_scan_id_source_overrides_auto_increment() {
    let mut lab = Lab::new();
    lab.re.set_scan_id_source(Some(1));
    lab.run(vec![open(), close()]);
    assert_eq!(lab.start().scan_id, Some(99));
    lab.scan_id = Some(CirrusError::Backend("no source".into()));
    assert_eq!(lab.run(vec![open(), close()]).exit_status, "fail");
}

#[test]
fn re_set_md_validator_can_reject_run() {
    let mut lab = Lab::new();
    lab.re.set_md_validator(Some(1));
    lab.forbidden = Some("forbidden".into());
    lab.re.md_set("forbidden".into(), Json::Bool(true));
    let shown = run_reply(Ok(lab.run(vec![open(), close()]))).unwrap();
    assert!(shown.contains("exit_status=fail"), "{shown}");
    assert!(lab.docs.is_empty());
    lab.re.md_remove("forbidden");
    assert_eq!(lab.run(vec![open(), close()]).exit_status, "success");
}

#[test]
fn re_set_md_normalizer_modifies_runstart() {
    let mut lab = Lab::new();
    lab.re.set_md_normalizer(Some(1));
    lab.normal = Some(("normalized".into(), Json::Bool(true)));
    lab.run(vec![open(), close()]);
    assert!(matches!(lab.start().extra.get("normalized"), Some(Json::Bool(true))));
    assert!(normalizer_outcome(Err("bad".into())).is_err());
}

#[test]
fn groups_wait_for_all_their_members() {
    let mut lab = Lab::new();
    let m = lab.motor(1, "m", 0.0);
    let g = || Some("g".to_string());
    let prepare = Msg::Prepare { obj: m.clone(), value: Arc::new(Json::Null), group: g() };
    let wait = |error_on_timeout: bool, timeout: Option<Span>| Msg::Wait {
        group: "g".into(),
        error_on_timeout,
        timeout,
    };
    let set = || Msg::SetValue { obj: m.clone(), value: number(1.0), group: g() };
    assert_eq!(lab.run(vec![set(), prepare.clone(), wait(true, None)]).exit_status, "fail");
    assert_eq!(lab.run(vec![set(), wait(true, None), wait(true, None)]).exit_status, "no-run");
    lab.slow = true;
    assert_eq!(lab.run(vec![set(), wait(true, Some(span(5)))]).exit_status, "fail");
    assert_eq!(lab.run(vec![set(), wait(false, Some(span(5)))]).exit_status, "no-run");
}

#[test]
fn a_group_is_awaited_up_to_the_first_failure() {
    let late = || Err(StatusError::Timeout);
    let mut w = GroupWait::new(vec![4, 5, 6], true);
    assert!(matches!(w.begin(), GroupNext::Await(4)));
    assert!(matches!(w.member_ended(Ok(())), GroupNext::Await(5)));
    assert!(matches!(w.member_ended(late()), GroupNext::Over(Err(CirrusError::Timeout(_)))));
    assert!(matches!(w.member_ended(Ok(())), GroupNext::Over(Ok(()))));
    let mut w = GroupWait::new(vec![4, 5], false);
    assert!(matches!(w.begin(), GroupNext::Await(4)));
    assert!(matches!(w.member_ended(late()), GroupNext::Await(5)));
    assert!(matches!(w.member_ended(late()), GroupNext::Over(Ok(()))));
}

#[test]
fn the_first_failing_factory_ends_the_wait() {
    let mut lab = Lab::new();
    lab.broken = Some(2);
    let wait = Msg::WaitFor { factories: Arc::new(vec![1, 2, 3]), timeout: None };
    let r = lab.run(vec![open(), wait.clone()]);
    assert_eq!(r.exit_status, "fail");
    assert_eq!(lab.stop().reason.as_deref(), Some("f2"));
    assert_eq!(lab.factories, vec![1, 2]);
    lab.broken = None;
    assert_eq!(lab.run(vec![wait]).exit_status, "no-run");
    assert_eq!(lab.factories, vec![1, 2, 1, 2, 3]);
}

#[test]
fn a_monitor_replaces_one_that_does_the_same() {
    let mut lab = Lab::new();
    let m = lab.motor(1, "m", 0.0);
    lab.re.begin_run();
    let mut lp = RunLoop::new();
    lab.process(&mut lp, open());
    for name in ["a", "b", "a"] {
        lab.process(&mut lp, Msg::Monitor { obj: m.clone(), name: Some(name.into()) });
    }
    assert_eq!(lab.replaced, vec![false, false, true]);
}

#[test]
fn staged_devices_are_left_to_the_cleanup() {
    let mut lab = Lab::new();
    let a = lab.motor(1, "a", 0.0);
    let b = lab.motor(2, "b", 0.0);
    lab.run(vec![Msg::Stage(a.clone()), Msg::Stage(b.clone()), Msg::Unstage(a)]);
    assert_eq!(lab.cleanups[0].staged, vec![b]);
}

#[test]
fn monitors_number_their_own_events() {
    let mut lab = Lab::new();
    let m = lab.motor(1, "m", 0.0);
    lab.re.begin_run();
    let mut lp = RunLoop::new();
    lab.process(&mut lp, open());
    lab.process(&mut lp, Msg::Monitor { obj: m.clone(), name: Some("mon".into()) });
    assert_eq!(lab.names(), vec!["start", "descriptor", "event"]);
    match &*lab.docs[2] {
        Document::Event(e) => {
            assert_eq!(e.seq_num, 1);
            assert!(matches!(e.data.get("m"), Some(Json::Real(v)) if *v == number(0.0)));
        }
        d => panic!("{d:?}"),
    }
    let task = MonitorTask {
        stream: "mon".into(),
        obj_name: "m".into(),
        run_uid: lab.re.current_run_uid().unwrap(),
    };
    for n in 1..=2 {
        let now = lab.now();
        let e = lab.re.monitor_event(&task, Json::UInt(n), now.time, now).expect("an event");
        assert_eq!(e.seq_num, n + 1);
        assert_eq!(e.data.get("m").and_then(|j| j.as_i64()), Some(n as i64));
    }
    let now = lab.now();
    let lost = MonitorTask { stream: "mon".into(), obj_name: "m".into(), run_uid: "other".into() };
    assert!(lab.re.monitor_event(&lost, Json::Null, now.time, now).is_none());
    lab.process(&mut lp, Msg::Unmonitor(m));
    assert!(lab.re.monitor_event(&task, Json::Null, now.time, now).is_none());
    lab.process(&mut lp, close());
    assert_eq!(lab.stop().num_events.get("mon"), Some(&3));
}

#[test]
fn every_sink_then_every_callback_gets_a_document() {
    let mut re = RunEngine::new();
    let first = re.subscribe(40);
    re.subscribe(41);
    let mut out = FanOut::new(2);
    let mut seen = vec![out.begin(&re)];
    let refused = || Err(CirrusError::Backend("sink is full".into()));
    seen.push(out.handed_over(&re, refused()));
    re.subscribe(42);
    seen.push(out.handed_over(&re, refused()));
    re.unsubscribe(first);
    seen.push(out.handed_over(&re, Ok(())));
    seen.push(out.handed_over(&re, Ok(())));
    seen.push(out.handed_over(&re, Ok(())));
    seen.push(out.handed_over(&re, Ok(())));
    let (sink, call) = (FanNext::Sink, FanNext::Callback);
    let all = vec![sink(0), sink(1), call(40), call(41), call(42), FanNext::Over, FanNext::Over];
    assert_eq!(seen, all);
    assert_eq!(FanOut::new(0).begin(&RunEngine::new()), FanNext::Over);
}

#[test]
fn collected_rows_become_events() {
    let mut lab = Lab::new();
    let d = lab.detector(1, "fly");
    let r = lab.run(vec![
        open(),
        Msg::Kickoff { obj: d.clone(), group: None },
        Msg::Complete { obj: d.clone(), group: None },
        Msg::Collect { obj: d.clone(), stream_name: None },
        close(),
    ]);
    assert_eq!(r.exit_status, "success");
    assert_eq!(lab.names(), vec!["start", "descriptor", "event", "event", "stop"]);
    assert_eq!(lab.cleanups[0].flyables, vec![d]);
}

#[test]
fn declared_and_published_documents_are_emitted() {
    let mut lab = Lab::new();
    let mut keys = StrMap::new();
    keys.insert("x".into(), DataKey::plain("s".into(), Dtype::Number, vec![]));
    let datum = Document::Datum(cirrus::documents::Datum {
        datum_id: "r-1/0".into(),
        resource: "r-1".into(),
        datum_kwargs: StrMap::new(),
    });
    lab.run(vec![
        open(),
        Msg::DeclareStream { stream_name: "s".into(), data_keys: Arc::new(keys) },
        Msg::Publish(Arc::new(datum)),
        close(),
    ]);
    assert_eq!(lab.names(), vec!["start", "descriptor", "datum", "stop"]);
}

#[test]
fn pausables_and_suspenders_come_and_go() {
    let mut lab = Lab::new();
    let p = ObjRef { id: 5, name: "p1".into() };
    let mut sent = 0;
    lab.drive(&mut |lab| {
        sent += 1;
        match sent {
            1 => Some(Msg::RegisterPausable(p.clone())),
            2 => Some(Msg::InstallSuspender { id: 1, suspender: 9 }),
            3 => {
                assert_eq!(lab.re.suspend_until_with(None), "suspended");
                Some(Msg::Null)
            }
            4 => Some(Msg::UnregisterPausable(p.clone())),
            5 => Some(Msg::RemoveSuspender { id: 1 }),
            _ => None,
        }
    });
    assert_eq!(lab.pauses[0].pausables, vec![p]);
    assert_eq!(lab.re.next_suspender_id(), 0);
    assert_eq!(lab.re.next_suspender_id(), 1);
}

#[test]
fn an_overlong_call_is_cancelled() {
    let mut re = RunEngine::new();
    re.set_loop_timeout(Some(span(100)));
    assert_eq!(re.hooks().loop_timeout, Some(span(100)));
    re.begin_run();
    assert_eq!(re.loop_timed_out(span(100)), CirrusError::Timeout(span(100)));
    assert!(re.is_cancelled());
}

#[test]
fn re_set_loop_timeout_aborts_overrun() {
    let mut re = RunEngine::new();
    re.set_loop_timeout(Some(span(100)));
    re.begin_run();
    let limit = re.hooks().loop_timeout.expect("a limit");
    let e = re.loop_timed_out(limit);
    assert!(re.is_cancelled());
    let told = run_reply(Err(e)).unwrap_err().to_lowercase();
    assert!(told.contains("timeout") || told.contains("plan failed"), "{told}");
}

#[test]
fn labels_name_the_message() {
    let m = ObjRef { id: 1, name: "m1".into() };
    let set = Msg::SetValue { obj: m.clone(), value: number(1.5), group: None };
    assert!(set.label("1.5").contains("m1"));
    assert_eq!(set.obj_name(), Some("m1"));
    assert!(set.is_cacheable());
    assert!(!Msg::Checkpoint.is_cacheable());
    assert!(Msg::Sleep(span(1500)).label("").contains("1.5s"));
    assert!(Msg::Fail("a\"b".into()).label("").contains("\"a\\\"b\""));
}

// Scripted plans.

fn table(pairs: Vec<(&str, LuaVal)>) -> Vec<(LuaVal, LuaVal)> {
    pairs.into_iter().map(|(k, v)| (LuaVal::Str(k.into()), v)).collect()
}

fn meta(plan: Option<&str>) -> MsgCall {
    MsgCall::OpenRun(plan.map(|p| MetaTable {
        plan_name: Some(p.into()),
        scan_id: None,
        pairs: table(vec![("plan_name", LuaVal::Str(p.into()))]),
    }))
}

enum Yield {
    Call(MsgCall),
    Value,
    Raise(String),
}

/// Runs a coroutine given by what it yields when it is resumed with a value.
fn coroutine(lab: &mut Lab, body: &mut dyn FnMut(LuaOut) -> Option<Yield>) -> RunResult {
    let mut plan = CoroutinePlan::new();
    let mut groups = AutoGroups::new();
    lab.re.take_msg_result();
    lab.drive(&mut |lab| loop {
        let with = match plan.next_resume()? {
            Resume::Start | Resume::Nothing => LuaOut::Nil,
            Resume::Result => msg_result_to_lua(lab.re.take_msg_result()),
        };
        let came = match body(with) {
            None => Resumed::Value(false),
            Some(Yield::Value) => Resumed::Value(true),
            Some(Yield::Raise(e)) => Resumed::Error(e),
            Some(Yield::Call(c)) => match build_msg(c, &mut groups) {
                Ok(m) => Resumed::Msg(m, true),
                Err(e) => Resumed::Error(e),
            },
        };
        match plan.resumed(came) {
            PlanStep::Yield(m) => return Some(m),
            PlanStep::Fail(detail) => return Some(Msg::Fail(
                bridge_error(Some(detail)).describe(),
            )),
            PlanStep::Skip => {}
            PlanStep::End => return None,
        }
    })
}

fn script(lab: &mut Lab, calls: Vec<MsgCall>) -> (RunResult, Vec<LuaOut>) {
    let mut got = Vec::new();
    let mut left = calls.into_iter();
    let r = coroutine(lab, &mut |v| {
        got.push(v);
        left.next().map(Yield::Call)
    });
    got.remove(0);
    (r, got)
}

fn shown(v: &LuaOut) -> String {
    format!("{v:?}")
}

#[test]
fn coroutine_plan_runs_to_completion() {
    let mut lab = Lab::new();
    let det = lab.detector(1, "det1");
    let m1 = lab.motor(2, "m1", 0.0);
    let motor = || LuaDevice::motor("m1", m1.clone());
    let mut calls = vec![meta(Some("lua_coro_scan"))];
    for i in 0..4 {
        calls.extend([
            MsgCall::SetValue(motor(), number(i as f64 / 3.0), Some("main".into())),
            MsgCall::Wait("main".into(), None, None),
            MsgCall::Create(Some("primary".into())),
            MsgCall::Read(motor()),
            MsgCall::Read(LuaDevice::detector("det1", det.clone())),
            MsgCall::Save,
        ]);
    }
    calls.push(MsgCall::CloseRun(Some("success".into()), None));
    let (r, _) = script(&mut lab, calls);
    assert_eq!(r.exit_status, "success");
    assert_eq!(lab.stop().num_events.get("primary"), Some(&4));
    assert_eq!(
        lab.start().extra.get("plan_name").unwrap().as_str().unwrap(),
        "lua_coro_scan"
    );
}

#[test]
fn coroutine_plan_open_close_only() {
    let mut lab = Lab::new();
    let (r, _) = script(
        &mut lab,
        vec![MsgCall::OpenRun(None), MsgCall::CloseRun(Some("success".into()), None)],
    );
    assert_eq!(r.exit_status, "success");
    assert_eq!(lab.names(), vec!["start", "stop"]);
}

#[test]
fn coroutine_plan_with_args() {
    let mut lab = Lab::new();
    let (r, _) = script(
        &mut lab,
        vec![
            meta(Some("argpassed")),
            MsgCall::Null,
            MsgCall::Null,
            MsgCall::Null,
            MsgCall::CloseRun(None, None),
        ],
    );
    assert_eq!(r.exit_status, "success");
}

#[test]
fn coroutine_yield_returns_run_uid_after_open_run() {
    let mut lab = Lab::new();
    let (r, got) = script(
        &mut lab,
        vec![meta(Some("uid_test")), MsgCall::CloseRun(Some("success".into()), None)],
    );
    match &got[0] {
        LuaOut::Str(uid) => {
            assert!(!uid.is_empty());
            assert!(run_reply(Ok(r)).unwrap().contains(uid));
        }
        v => panic!("{v:?}"),
    }
}

#[test]
fn coroutine_yield_returns_nil_for_unbridged_msgs() {
    let mut lab = Lab::new();
    let (_, got) = script(
        &mut lab,
        vec![
            MsgCall::OpenRun(None),
            MsgCall::Create(Some("primary".into())),
            MsgCall::Null,
            MsgCall::CloseRun(Some("success".into()), None),
        ],
    );
    assert!(matches!(got[1], LuaOut::Nil) && matches!(got[2], LuaOut::Nil));
}

#[test]
fn coroutine_set_returns_auto_group_string() {
    let mut lab = Lab::new();
    let m1 = lab.motor(1, "m1", 0.0);
    let motor = || LuaDevice::motor("m1", m1.clone());
    let mut n = 0;
    let mut got = Vec::new();
    coroutine(&mut lab, &mut |v| {
        let word = match &v {
            LuaOut::Str(s) => s.clone(),
            _ => String::new(),
        };
        got.push(v);
        n += 1;
        let call = match n {
            1 => MsgCall::OpenRun(None),
            2 => MsgCall::SetValue(motor(), number(1.0), None),
            3 => MsgCall::Wait(word, None, None),
            4 => MsgCall::SetValue(motor(), number(2.0), Some("user_group".into())),
            5 => MsgCall::Wait(word, None, None),
            6 => MsgCall::CloseRun(None, None),
            _ => return None,
        };
        Some(Yield::Call(call))
    });
    assert!(matches!(&got[2], LuaOut::Str(g) if g.starts_with("auto-")), "{got:?}");
    assert!(matches!(&got[4], LuaOut::Str(g) if g == "user_group"), "{got:?}");
    assert_eq!(lab.stop().exit_status, "success");
}

#[test]
fn coroutine_locate_returns_setpoint_readback_table() {
    let mut lab = Lab::new();
    let m1 = lab.motor(1, "m1", 0.0);
    let motor = || LuaDevice::motor("m1", m1.clone());
    let (_, got) = script(
        &mut lab,
        vec![
            MsgCall::OpenRun(None),
            MsgCall::SetValue(motor(), number(2.5), Some("g".into())),
            MsgCall::Wait("g".into(), None, None),
            MsgCall::Locate(motor()),
            MsgCall::CloseRun(None, None),
        ],
    );
    match &got[3] {
        LuaOut::Fields(f) => {
            for key in ["setpoint", "readback"] {
                let v = &f.iter().find(|(k, _)| k == key).unwrap().1;
                assert!(matches!(v, LuaOut::Number(x) if *x == number(2.5)), "{v:?}");
            }
        }
        v => panic!("{v:?}"),
    }
}

#[test]
fn coroutine_read_returns_reading_table() {
    let mut lab = Lab::new();
    let m1 = lab.motor(1, "m1", 0.0);
    let motor = || LuaDevice::motor("m1", m1.clone());
    let (_, got) = script(
        &mut lab,
        vec![
            MsgCall::OpenRun(None),
            MsgCall::SetValue(motor(), number(1.5), Some("g".into())),
            MsgCall::Wait("g".into(), None, None),
            MsgCall::Create(Some("primary".into())),
            MsgCall::Read(motor()),
            MsgCall::Save,
            MsgCall::CloseRun(None, None),
        ],
    );
    let LuaOut::Fields(readings) = &got[4] else { panic!("{:?}", got[4]) };
    let LuaOut::Fields(reading) = &readings.iter().find(|(k, _)| k == "m1").unwrap().1 else {
        panic!("{readings:?}")
    };
    let value = &reading.iter().find(|(k, _)| k == "value").unwrap().1;
    assert!(matches!(value, LuaOut::Number(x) if *x == number(1.5)), "{value:?}");
}

#[test]
fn coroutine_close_run_returns_exit_status() {
    let mut lab = Lab::new();
    let (_, got) = script(
        &mut lab,
        vec![MsgCall::OpenRun(None), MsgCall::CloseRun(Some("success".into()), None)],
    );
    assert!(matches!(&got[1], LuaOut::Str(s) if s == "success"), "{got:?}");
}

#[test]
fn coroutine_msg_constructor_type_errors_clearly() {
    let mut groups = AutoGroups::new();
    let det = LuaDevice::detector("det1", ObjRef { id: 1, name: "det1".into() });
    let e = build_msg(MsgCall::SetValue(det, number(1.0), None), &mut groups).unwrap_err();
    assert!(e.contains("not movable"), "{e}");
}

#[test]
fn msg_input_with_handler_returns_string() {
    let mut lab = Lab::new();
    lab.re.set_input_handler(Some(3));
    let (_, got) = script(&mut lab, vec![MsgCall::Input(Some("name?".into()))]);
    assert!(matches!(&got[0], LuaOut::Str(s) if s == "answer:name?"), "{got:?}");
}

#[test]
fn msg_re_class_returns_engine_name() {
    let mut lab = Lab::new();
    let (_, got) = script(&mut lab, vec![MsgCall::ReClass]);
    assert!(matches!(&got[0], LuaOut::Str(s) if s == "cirrus.RunEngine"), "{got:?}");
}

#[test]
fn msg_subscribe_receives_documents_via_lua_callback() {
    let mut lab = Lab::new();
    let (_, got) = script(
        &mut lab,
        vec![MsgCall::Subscribe(33), MsgCall::OpenRun(None), MsgCall::CloseRun(None, None)],
    );
    assert!(shown(&got[0]).contains('1'), "{got:?}");
    assert!(lab.heard.iter().filter(|h| h.0 == 33).count() >= 2);
}

#[test]
fn msg_wait_for_factories_run_in_order() {
    let mut lab = Lab::new();
    let f = |id: u64| LuaVal::Function(id, "function".into());
    script(&mut lab, vec![MsgCall::WaitFor(vec![f(1), LuaVal::Nil, f(2)], None)]);
    assert_eq!(lab.factories, vec![1, 2]);
}

#[test]
fn lua_coroutine_error_propagates_to_run_result() {
    let mut lab = Lab::new();
    let r = coroutine(&mut lab, &mut |_| {
        Some(Yield::Raise("intentional Lua error from plan".into()))
    });
    assert!(run_reply(Ok(r)).unwrap().contains("exit_status=fail"));
}

#[test]
fn lua_error_after_open_run_emits_runstop_fail() {
    let mut lab = Lab::new();
    let mut n = 0;
    let r = coroutine(&mut lab, &mut |_| {
        n += 1;
        Some(match n {
            1 => Yield::Call(MsgCall::OpenRun(None)),
            _ => Yield::Raise("intentional mid-plan error".into()),
        })
    });
    assert_eq!(r.exit_status, "fail");
    assert_eq!(lab.stop().exit_status, "fail");
    assert!(lab.stop().reason.as_ref().unwrap().contains("intentional mid-plan error"));
}

#[test]
fn values_that_are_no_messages_are_skipped() {
    let mut lab = Lab::new();
    let mut n = 0;
    let r = coroutine(&mut lab, &mut |_| {
        n += 1;
        match n {
            1 => Some(Yield::Value),
            2 => Some(Yield::Call(MsgCall::OpenRun(None))),
            3 => Some(Yield::Value),
            _ => None,
        }
    });
    assert_eq!(r.exit_status, "success");
    assert_eq!(lab.names(), vec!["start", "stop"]);
}

#[test]
fn msg_publish_missing_field_gives_actionable_error() {
    let body = Json::Object(vec![("uid".into(), text("r-1"))]);
    let e = check_publish("resource", &body).unwrap_err();
    assert!(e.contains("missing required fields"), "{e}");
}

#[test]
fn msg_publish_minimal_datum_succeeds() {
    let body = Json::Object(vec![
        ("datum_id".into(), text("r-1/0")),
        ("resource".into(), text("r-1")),
    ]);
    assert_eq!(check_publish("datum", &body), Ok(PublishKind::Datum));
}

#[test]
fn msg_publish_minimal_stream_resource_succeeds() {
    let body = Json::Object(vec![
        ("uid".into(), text("sr-1")),
        ("data_key".into(), text("det1")),
        ("mimetype".into(), text("application/x-hdf5")),
        ("uri".into(), text("file:///tmp/x.h5")),
    ]);
    assert_eq!(check_publish("stream_resource", &body), Ok(PublishKind::StreamResource));
}

#[test]
fn msg_publish_unsupported_kind_gives_actionable_error() {
    let e = check_publish("garbage", &Json::Object(vec![])).unwrap_err();
    assert!(e.contains("garbage"), "{e}");
}

// The engine as scripts see it.

fn lua_engine() -> LuaRunEngine {
    LuaRunEngine { re: RunEngine::new() }
}

#[test]
fn metadata_round_trip() {
    let mut re = lua_engine();
    re.call(ReMethod::MdSet("operator".into(), LuaVal::Str("alice".into()))).unwrap();
    re.call(ReMethod::MdSet("scan_attempt".into(), LuaVal::Integer(7))).unwrap();
    let out = re.md_get();
    assert!(out.contains("alice"));
    assert!(out.contains("scan_attempt"));
    assert!(out.contains("7"));
}

#[test]
fn re_md_remove_and_replace_work() {
    let mut re = lua_engine();
    re.call(ReMethod::MdSet("a".into(), LuaVal::Str("x".into()))).unwrap();
    re.call(ReMethod::MdSet("b".into(), LuaVal::Str("y".into()))).unwrap();
    re.call(ReMethod::MdRemove("a".into())).unwrap();
    assert!(!re.md_get().contains("\"a\":"));
    re.call(ReMethod::MdReplace(table(vec![("c", LuaVal::Str("z".into()))]))).unwrap();
    assert!(re.md_get().contains("\"c\": \"z\""), "{}", re.md_get());
}

#[test]
fn re_set_record_interruptions_toggles_state() {
    let mut re = lua_engine();
    assert!(!re.re.record_interruptions_enabled());
    re.call(ReMethod::SetRecordInterruptions(true)).unwrap();
    assert!(re.re.record_interruptions_enabled());
    re.call(ReMethod::SetRecordInterruptions(false)).unwrap();
    assert!(!re.re.record_interruptions_enabled());
}

#[test]
fn re_register_command_dispatched_via_msg_custom() {
    let mut lab = Lab::new();
    let mut re = lua_engine();
    re.call(ReMethod::RegisterCommand("ping".into(), 12)).unwrap();
    lab.re = re.re;
    assert_eq!(
        lab.run(vec![Msg::Custom { name: "ping".into(), payload: 0 }]).exit_status,
        "no-run"
    );
    lab.custom = Some(CirrusError::Backend("handler".into()));
    assert_eq!(
        lab.run(vec![Msg::Custom { name: "ping".into(), payload: 0 }]).exit_status,
        "fail"
    );
    lab.re.unregister_command("ping");
    assert_eq!(
        lab.run(vec![Msg::Custom { name: "ping".into(), payload: 0 }]).exit_status,
        "fail"
    );
}

#[test]
fn bridge_error_command_is_reserved() {
    let mut re = lua_engine();
    let name = "_cirrus_lua_bridge_error";
    assert!(is_bridge_command(name));
    let e1 = re.call(ReMethod::RegisterCommand(name.into(), 1)).unwrap_err();
    let e2 = re.call(ReMethod::UnregisterCommand(name.into())).unwrap_err();
    assert!(e1.contains("reserved") && e2.contains("reserved"));
}

#[test]
fn re_register_pausable_unregister_accepts_device_or_name() {
    let mut re = lua_engine();
    let p = || LuaDevice::pausable("p1", ObjRef { id: 1, name: "p1".into() });
    re.call(ReMethod::RegisterPausable(p())).unwrap();
    re.call(ReMethod::UnregisterPausable(PausableArg::Device(p()))).unwrap();
    re.call(ReMethod::RegisterPausable(p())).unwrap();
    re.call(ReMethod::UnregisterPausable(PausableArg::Name("p1".into()))).unwrap();
    assert!(re.call(ReMethod::UnregisterPausable(PausableArg::Other)).is_err());
}

#[test]
fn re_register_pausable_rejects_non_pausable_device() {
    let mut re = lua_engine();
    let m = LuaDevice::motor("m1", ObjRef { id: 1, name: "m1".into() });
    let e = re.call(ReMethod::RegisterPausable(m)).unwrap_err();
    assert!(e.contains("not pausable"), "{e}");
}

#[test]
fn methods_note_their_reason() {
    let mut re = lua_engine();
    assert_eq!(re.state(), "Idle");
    assert_eq!(re.call(ReMethod::Abort(None)), Ok(Some("user abort".into())));
    assert_eq!(re.call(ReMethod::Abort(Some("why".into()))), Ok(Some("why".into())));
    assert_eq!(re.call(ReMethod::Halt), Ok(Some("user halt".into())));
    assert_eq!(re.call(ReMethod::SuspendUntil(None)), Ok(Some("suspended".into())));
    assert_eq!(re.call(ReMethod::Resume), Ok(None));
    assert!(matches!(re.take_msg_result(), LuaOut::Nil));
}

#[test]
fn results_are_taken_once() {
    let mut lab = Lab::new();
    lab.run(vec![open(), close()]);
    assert!(matches!(
        lab.re.take_msg_result(),
        MsgResult::CloseRun { exit_status } if exit_status == "success"
    ));
    assert!(matches!(lab.re.take_msg_result(), MsgResult::Nothing));
}

#[test]
fn a_step_tells_its_outcome() {
    let mut re = RunEngine::new();
    let step = re.handle(Msg::Null, Now { time: number(0.0), nanos: 0 });
    assert!(step.emit.is_empty() && matches!(step.next, Next::Done(None)));
    assert!(matches!(re.call_ended(Err(CirrusError::Cancelled)).next, Next::Failed(_)));
    let mut s = Status::new();
    s.complete(StatusOutcome::Failed(StatusError::Cancelled));
    assert!(matches!(re.status_ended(s.poll().unwrap()).next, Next::Failed(_)));
    assert!(matches!(re.slept(true).next, Next::Failed(CirrusError::Cancelled)));
}
