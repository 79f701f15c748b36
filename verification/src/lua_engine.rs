//! The engine as scripts see it.

use vstd::prelude::*;
use vstd::string::*;

use crate::codec::{json_pretty, pretty_json};
use crate::engine::control::{aborted, halted, paused, run_state, stopped, without_id};
use crate::engine::{
    Control, EngineRunState, EngineView, Hooks, MsgResultView, RunEngine, RunOptions, RunResult,
};
use crate::error::{error_text, CirrusError, Span};
use crate::lua_bridge::{bridge_error_cmd, is_bridge_command, msg_result_to_lua, result_out};
use crate::lua_device::{not_playing, player, LuaDevice, Role};
use crate::lua_msg::{functions_among, lua_map, lua_table_to_json_md, pick_functions, text_or};
use crate::lua_plan::{LuaPlan, LuaPlanKind};
use crate::lua_value::{
    items_view, lua_json, lua_value_to_json, lua_view, pairs_view, LuaOut, LuaVal, LuaView,
};
use crate::msg::{debug_str, str_debug};
use crate::strmap::{map_of, StrMap};
use crate::text::{join2, join3};
use crate::value::{members_view, object, Duplicate, Json, JsonView};

verus! {

/// What `unregister_pausable` was given.
#[derive(Debug)]
pub enum PausableArg {
    /// A name.
    Name(String),
    /// A device.
    Device(LuaDevice),
    /// Something else.
    Other,
}

/// A call of a method of the engine that acts at once.
#[derive(Debug)]
pub enum ReMethod {
    /// `pause(deferred)`.
    Pause(Option<bool>),
    /// `request_pause(defer)`.
    RequestPause(Option<bool>),
    /// `request_suspend(reason)`.
    RequestSuspend(Option<String>),
    /// `resume()`.
    Resume,
    /// `abort(reason)`.
    Abort(Option<String>),
    /// `halt()`.
    Halt,
    /// `stop()`.
    Stop,
    /// `md_set(key, value)`.
    MdSet(String, LuaVal),
    /// `md_remove(key)`.
    MdRemove(String),
    /// `md_replace(table)`.
    MdReplace(Vec<(LuaVal, LuaVal)>),
    /// `set_loop_timeout(seconds)`.
    SetLoopTimeout(Option<Span>),
    /// `set_record_interruptions(on)`.
    SetRecordInterruptions(bool),
    /// `clear_preprocessors()`.
    ClearPreprocessors,
    /// `unsubscribe(id)`.
    Unsubscribe(u64),
    /// `register_command(name, callback)`, by the handle of the handler.
    RegisterCommand(String, u64),
    /// `unregister_command(name)`.
    UnregisterCommand(String),
    /// `set_md_validator(callback)`.
    SetMdValidator(Option<u64>),
    /// `set_md_normalizer(callback)`.
    SetMdNormalizer(Option<u64>),
    /// `set_scan_id_source(callback)`.
    SetScanIdSource(Option<u64>),
    /// `set_before_plan(callback)`.
    SetBeforePlan(Option<u64>),
    /// `set_after_plan(callback)`.
    SetAfterPlan(Option<u64>),
    /// `set_input_handler(callback)`.
    SetInputHandler(Option<u64>),
    /// `register_pausable(device)`.
    RegisterPausable(LuaDevice),
    /// `unregister_pausable(device or name)`.
    UnregisterPausable(PausableArg),
    /// `suspend_until_seconds(seconds, justification)`: the pause; the host resumes later.
    SuspendUntil(Option<String>),
}

/// What a script is told when it registers a handler for the library's own command.
pub open spec fn reserved_register(name: Seq<char>) -> Seq<char> {
    str_debug(name)
        + " is reserved by the cirrus Lua bridge; overriding it would silently swallow Lua coroutine errors"@
}

/// What a script is told when it removes the handler of the library's own command.
pub open spec fn reserved_unregister(name: Seq<char>) -> Seq<char> {
    str_debug(name)
        + " is reserved by the cirrus Lua bridge for error propagation; unregistering it would silently swallow Lua coroutine errors"@
}

/// What a method notes: the reason or the label that goes with it, if there is one.
pub open spec fn noted(m: ReMethod) -> Option<Seq<char>> {
    match m {
        ReMethod::Abort(r) => Some(text_or(r, "user abort"@)),
        ReMethod::Halt => Some("user halt"@),
        ReMethod::RequestSuspend(r) => Some(text_or(r, "user-suspend"@)),
        ReMethod::SuspendUntil(j) => Some(text_or(j, "suspended"@)),
        _ => None,
    }
}

/// The engine after a method, or what the script is told instead.
pub open spec fn re_after(e: EngineView, m: ReMethod) -> Result<EngineView, Seq<char>> {
    match m {
        ReMethod::Pause(d) => Ok(EngineView { control: paused(e.control, d == Some(true)), ..e }),
        ReMethod::RequestPause(d) => Ok(
            EngineView { control: paused(e.control, d == Some(true)), ..e },
        ),
        ReMethod::RequestSuspend(_) => Ok(EngineView { control: paused(e.control, false), ..e }),
        ReMethod::Resume => Ok(
            EngineView { control: Control { is_paused: false, ..e.control }, ..e },
        ),
        ReMethod::Abort(_) => Ok(EngineView { control: aborted(e.control), ..e }),
        ReMethod::Halt => Ok(EngineView { control: halted(e.control), ..e }),
        ReMethod::Stop => Ok(EngineView { control: stopped(e.control), ..e }),
        ReMethod::MdSet(k, v) => match lua_json(v.deep_view()) {
            Ok(j) => Ok(EngineView { md: e.md.insert(k@, j), ..e }),
            Err(t) => Err(t),
        },
        ReMethod::MdRemove(k) => Ok(EngineView { md: e.md.remove(k@), ..e }),
        ReMethod::MdReplace(pairs) => match lua_map(pairs_view(pairs@), false) {
            Ok(md) => Ok(EngineView { md, ..e }),
            Err(t) => Err(t),
        },
        ReMethod::SetLoopTimeout(t) => Ok(
            EngineView { hooks: Hooks { loop_timeout: t, ..e.hooks }, ..e },
        ),
        ReMethod::SetRecordInterruptions(on) => Ok(
            EngineView { control: Control { record_interruptions: on, ..e.control }, ..e },
        ),
        ReMethod::ClearPreprocessors => Ok(EngineView { preprocessors: seq![], ..e }),
        ReMethod::Unsubscribe(id) => Ok(
            EngineView { subscribers: without_id(e.subscribers, id), ..e },
        ),
        ReMethod::RegisterCommand(name, h) => if name@ == bridge_error_cmd() {
            Err(reserved_register(name@))
        } else {
            Ok(EngineView { commands: e.commands.insert(name@, h), ..e })
        },
        ReMethod::UnregisterCommand(name) => if name@ == bridge_error_cmd() {
            Err(reserved_unregister(name@))
        } else {
            Ok(EngineView { commands: e.commands.remove(name@), ..e })
        },
        ReMethod::SetMdValidator(h) => Ok(
            EngineView { hooks: Hooks { md_validator: h, ..e.hooks }, ..e },
        ),
        ReMethod::SetMdNormalizer(h) => Ok(
            EngineView { hooks: Hooks { md_normalizer: h, ..e.hooks }, ..e },
        ),
        ReMethod::SetScanIdSource(h) => Ok(
            EngineView { hooks: Hooks { scan_id_source: h, ..e.hooks }, ..e },
        ),
        ReMethod::SetBeforePlan(h) => Ok(
            EngineView { hooks: Hooks { before_plan: h, ..e.hooks }, ..e },
        ),
        ReMethod::SetAfterPlan(h) => Ok(
            EngineView { hooks: Hooks { after_plan: h, ..e.hooks }, ..e },
        ),
        ReMethod::SetInputHandler(h) => Ok(
            EngineView { hooks: Hooks { input_handler: h, ..e.hooks }, ..e },
        ),
        ReMethod::RegisterPausable(d) => match player(d, Role::Pausable) {
            Some(o) => Ok(
                EngineView { pausables: e.pausables.insert(o.name@, o.deep_view()), ..e },
            ),
            None => Err(not_playing(d, Role::Pausable)),
        },
        ReMethod::UnregisterPausable(PausableArg::Name(n)) => Ok(
            EngineView { pausables: e.pausables.remove(n@), ..e },
        ),
        ReMethod::UnregisterPausable(PausableArg::Device(d)) => Ok(
            EngineView { pausables: e.pausables.remove(d.name@), ..e },
        ),
        ReMethod::UnregisterPausable(PausableArg::Other) => Err(
            "unregister_pausable: argument must be a device or a name string"@,
        ),
        ReMethod::SuspendUntil(_) => Ok(EngineView { control: paused(e.control, false), ..e }),
    }
}

/// The engine as scripts hold it.
#[derive(Debug)]
pub struct LuaRunEngine {
    /// The engine.
    pub re: RunEngine,
}

/// Text, or what stands in for it.
fn or_text(s: Option<String>, default: &str) -> (t: String)
    ensures
        t@ == text_or(s, default@),
{
    match s {
        Some(s) => s,
        None => default.to_owned(),
    }
}

/// Whether it is true, where it is given.
fn is_true(b: Option<bool>) -> (yes: bool)
    ensures
        yes == (b == Some(true)),
{
    match b {
        Some(b) => b,
        None => false,
    }
}

impl LuaRunEngine {
    /// Takes a call of a method that acts at once. Gives the reason or the label that goes with
    /// it, if there is one.
    pub fn call(&mut self, m: ReMethod) -> (r: Result<Option<String>, String>)
        ensures
            match re_after(old(self).re@, m) {
                Ok(e) => {
                    &&& r matches Ok(n)
                    &&& n.deep_view() == noted(m)
                    &&& final(self).re@ == e
                },
                Err(t) => r matches Err(s) && s@ == t && final(self).re@ == old(self).re@,
            },
    {
        match m {
            ReMethod::Pause(d) => self.re.pause(is_true(d)),
            ReMethod::RequestPause(d) => self.re.request_pause(is_true(d)),
            ReMethod::RequestSuspend(r) => {
                self.re.request_suspend();
                return Ok(Some(or_text(r, "user-suspend")));
            },
            ReMethod::Resume => self.re.resume(),
            ReMethod::Abort(r) => {
                self.re.abort();
                return Ok(Some(or_text(r, "user abort")));
            },
            ReMethod::Halt => {
                self.re.halt();
                return Ok(Some("user halt".to_owned()));
            },
            ReMethod::Stop => self.re.stop(),
            ReMethod::MdSet(k, v) => match lua_value_to_json(&v) {
                Ok(j) => self.re.md_set(k, j),
                Err(e) => {
                    return Err(e);
                },
            },
            ReMethod::MdRemove(k) => self.re.md_remove(&k),
            ReMethod::MdReplace(pairs) => match lua_table_to_json_md(&pairs) {
                Ok(md) => self.re.md_replace(md),
                Err(e) => {
                    return Err(e);
                },
            },
            ReMethod::SetLoopTimeout(t) => self.re.set_loop_timeout(t),
            ReMethod::SetRecordInterruptions(on) => self.re.set_record_interruptions(on),
            ReMethod::ClearPreprocessors => self.re.clear_preprocessors(),
            ReMethod::Unsubscribe(id) => self.re.unsubscribe(id),
            ReMethod::RegisterCommand(name, h) => {
                if is_bridge_command(&name) {
                    return Err(
                        join2(
                            &debug_str(&name),
                            " is reserved by the cirrus Lua bridge; overriding it would silently swallow Lua coroutine errors",
                        ),
                    );
                }
                self.re.register_command(name, h)
            },
            ReMethod::UnregisterCommand(name) => {
                if is_bridge_command(&name) {
                    return Err(
                        join2(
                            &debug_str(&name),
                            " is reserved by the cirrus Lua bridge for error propagation; unregistering it would silently swallow Lua coroutine errors",
                        ),
                    );
                }
                self.re.unregister_command(&name)
            },
            ReMethod::SetMdValidator(h) => self.re.set_md_validator(h),
            ReMethod::SetMdNormalizer(h) => self.re.set_md_normalizer(h),
            ReMethod::SetScanIdSource(h) => self.re.set_scan_id_source(h),
            ReMethod::SetBeforePlan(h) => self.re.set_before_plan(h),
            ReMethod::SetAfterPlan(h) => self.re.set_after_plan(h),
            ReMethod::SetInputHandler(h) => self.re.set_input_handler(h),
            ReMethod::RegisterPausable(d) => match d.need(Role::Pausable) {
                Ok(o) => self.re.register_pausable(o),
                Err(e) => {
                    return Err(e);
                },
            },
            ReMethod::UnregisterPausable(a) => match a {
                PausableArg::Name(n) => self.re.unregister_pausable(&n),
                PausableArg::Device(d) => self.re.unregister_pausable(&d.name),
                PausableArg::Other => {
                    return Err(
                        "unregister_pausable: argument must be a device or a name string".to_owned(),
                    );
                },
            },
            ReMethod::SuspendUntil(j) => {
                let label = self.re.suspend_until_with(j);
                return Ok(Some(label));
            },
        }
        Ok(None)
    }

    /// The state of the engine in words.
    pub fn state(&self) -> (s: &'static str)
        ensures
            s@ == state_name(run_state(self.re@.control)),
    {
        match self.re.state() {
            EngineRunState::Idle => "Idle",
            EngineRunState::Running => "Running",
            EngineRunState::Paused => "Paused",
            EngineRunState::Aborting => "Aborting",
            EngineRunState::Halting => "Halting",
        }
    }

    /// The persistent metadata, laid out for people to read.
    pub fn md_get(&self) -> (s: String)
        ensures
            exists|members: Seq<(Seq<char>, JsonView)>| #[trigger]
                map_of(members) == self.re@.md && s@ == laid_out(JsonView::Object(members)),
    {
        let md = self.re.md();
        let j = map_to_object(&md);
        proof {
            assert(map_of(md.pairs()) == self.re@.md);
        }
        match pretty_json(&j) {
            Ok(s) => s,
            Err(_) => "".to_owned(),
        }
    }

    /// The result of the message processed last, which is cleared.
    pub fn take_msg_result(&mut self) -> (v: LuaOut)
        ensures
            exists|r: crate::engine::MsgResult| #[trigger]
                r@ == old(self).re@.last_msg_result && v.deep_view() == result_out(r),
            final(self).re@ == (EngineView {
                last_msg_result: MsgResultView::Nothing,
                ..old(self).re@
            }),
    {
        let r = self.re.take_msg_result();
        let ghost kept = r;
        let v = msg_result_to_lua(r);
        assert(kept@ == old(self).re@.last_msg_result);
        v
    }
}

/// The name of a state.
pub open spec fn state_name(s: EngineRunState) -> Seq<char> {
    match s {
        EngineRunState::Idle => "Idle"@,
        EngineRunState::Running => "Running"@,
        EngineRunState::Paused => "Paused"@,
        EngineRunState::Aborting => "Aborting"@,
        EngineRunState::Halting => "Halting"@,
    }
}

/// A value laid out for people to read; nothing where that fails.
pub open spec fn laid_out(j: JsonView) -> Seq<char> {
    match json_pretty(j) {
        Ok(s) => s,
        Err(_) => ""@,
    }
}

/// A map as an object.
fn map_to_object(md: &StrMap<Json>) -> (j: Json)
    ensures
        j.deep_view() == JsonView::Object(md.pairs()),
{
    let mut members: Vec<(String, Json)> = Vec::new();
    let mut i: usize = 0;
    while i < md.len()
        invariant
            i <= md.pairs().len(),
            members@.len() == i,
            forall|k: int|
                0 <= k < i ==> (#[trigger] members@[k]).0@ == md.pairs()[k].0
                    && members@[k].1.deep_view() == md.pairs()[k].1,
        decreases md.pairs().len() - i,
    {
        members.push((md.key_at(i).clone(), md.value_at(i).duplicate()));
        i += 1;
    }
    assert(members_view(members@) =~= md.pairs());
    object(members)
}

/// What a script is told of a run that ended.
pub open spec fn run_text(r: RunResult) -> Seq<char> {
    "exit_status="@ + r.exit_status@ + " run_uid="@ + text_or(r.run_uid, "—"@)
}

/// What a script gets of a run that ended.
pub fn run_reply(r: Result<RunResult, CirrusError>) -> (s: Result<String, String>)
    ensures
        match r {
            Ok(x) => s matches Ok(t) && t@ == run_text(x),
            Err(e) => s matches Err(t) && t@ == "plan failed: "@ + error_text(e),
        },
{
    match r {
        Ok(x) => Ok(
            join3(
                &join2("exit_status=", &x.exit_status),
                " run_uid=",
                &or_text(x.run_uid, "—"),
            ),
        ),
        Err(e) => Err(join2("plan failed: ", &e.describe())),
    }
}

/// The metadata of `opts.md`, or what the script is told.
pub open spec fn options_md(v: LuaView) -> Result<Map<Seq<char>, JsonView>, Seq<char>> {
    match v {
        LuaView::Nil => Ok(Map::empty()),
        LuaView::Table { pairs, .. } => lua_map(pairs, false),
        _ => Err("run_async_with: opts.md must be a table"@),
    }
}

/// The callbacks of `opts.subs`, or what the script is told.
pub open spec fn options_subs(v: LuaView) -> Result<Seq<u64>, Seq<char>> {
    match v {
        LuaView::Nil => Ok(seq![]),
        LuaView::Table { items, .. } => Ok(functions_among(items)),
        _ => Err("run_async_with: opts.subs must be a sequence of functions"@),
    }
}

/// The options of a run, out of `opts.md` and `opts.subs`.
pub fn run_options(md: &LuaVal, subs: &LuaVal) -> (r: Result<RunOptions, String>)
    ensures
        match (options_md(md.deep_view()), options_subs(subs.deep_view())) {
            (Err(e), _) => r matches Err(s) && s@ == e,
            (_, Err(e)) => r matches Err(s) && s@ == e,
            (Ok(m), Ok(f)) => r matches Ok(o) && o.md@ == m && o.subs@ == f,
        },
{
    let md = match md {
        LuaVal::Nil => StrMap::new(),
        LuaVal::Table { items, pairs } => {
            assert(lua_view(*md)->pairs =~= pairs_view(pairs@));
            match lua_table_to_json_md(pairs) {
                Ok(m) => m,
                Err(e) => {
                    return Err(e);
                },
            }
        },
        _ => {
            return Err("run_async_with: opts.md must be a table".to_owned());
        },
    };
    let subs = match subs {
        LuaVal::Nil => Vec::new(),
        LuaVal::Table { items, pairs } => {
            assert(lua_view(*subs)->items =~= items_view(items@));
            pick_functions(items)
        },
        _ => {
            return Err("run_async_with: opts.subs must be a sequence of functions".to_owned());
        },
    };
    Ok(RunOptions { md, subs })
}

/// What `run_async_with` starts: the plan, which it uses up, and the options.
pub fn run_with_options(plan: &mut LuaPlan, md: &LuaVal, subs: &LuaVal) -> (r: Result<
    (LuaPlanKind, RunOptions),
    String,
>)
    ensures
        final(plan).kind is None,
        final(plan).label == old(plan).label,
        match (old(plan).kind, options_md(md.deep_view()), options_subs(subs.deep_view())) {
            (None, _, _) => r matches Err(s) && s@
                == "plan was already consumed (Plans are single-use)"@,
            (_, Err(e), _) => r matches Err(s) && s@ == e,
            (_, _, Err(e)) => r matches Err(s) && s@ == e,
            (Some(k), Ok(m), Ok(f)) => r matches Ok(p) && p.0 == k && p.1.md@ == m && p.1.subs@
                == f,
        },
{
    let kind = match plan.take_to_run() {
        Ok(k) => k,
        Err(e) => {
            return Err(e);
        },
    };
    match run_options(md, subs) {
        Ok(o) => Ok((kind, o)),
        Err(e) => Err(e),
    }
}

/// A script cannot take the library's own command away: whatever method it calls, the handler
/// stays as it was.
pub proof fn law_bridge_command_stays(e: EngineView, m: ReMethod)
    requires
        e.commands.dom().contains(bridge_error_cmd()),
        re_after(e, m) is Ok,
    ensures
        re_after(e, m)->Ok_0.commands.dom().contains(bridge_error_cmd()),
        re_after(e, m)->Ok_0.commands[bridge_error_cmd()] == e.commands[bridge_error_cmd()],
{
}

/// A method that installs a hook installs that hook and leaves the others as they are.
pub proof fn law_hooks_are_installed_in_their_places(e: EngineView, m: ReMethod, r: Result<EngineView, Seq<char>>)
    requires
        r == re_after(e, m),
    ensures
        match m {
            ReMethod::SetMdValidator(h) => r matches Ok(a) && a.hooks.md_validator == h && a.hooks.md_normalizer == e.hooks.md_normalizer && a.hooks.scan_id_source == e.hooks.scan_id_source && a.hooks.before_plan == e.hooks.before_plan && a.hooks.after_plan == e.hooks.after_plan && a.hooks.input_handler == e.hooks.input_handler && a.hooks.checkpoint_hook == e.hooks.checkpoint_hook && a.hooks.loop_timeout == e.hooks.loop_timeout,
            ReMethod::SetMdNormalizer(h) => r matches Ok(a) && a.hooks.md_normalizer == h && a.hooks.md_validator == e.hooks.md_validator && a.hooks.scan_id_source == e.hooks.scan_id_source && a.hooks.before_plan == e.hooks.before_plan && a.hooks.after_plan == e.hooks.after_plan && a.hooks.input_handler == e.hooks.input_handler && a.hooks.checkpoint_hook == e.hooks.checkpoint_hook && a.hooks.loop_timeout == e.hooks.loop_timeout,
            ReMethod::SetScanIdSource(h) => r matches Ok(a) && a.hooks.scan_id_source == h && a.hooks.md_validator == e.hooks.md_validator && a.hooks.md_normalizer == e.hooks.md_normalizer && a.hooks.before_plan == e.hooks.before_plan && a.hooks.after_plan == e.hooks.after_plan && a.hooks.input_handler == e.hooks.input_handler && a.hooks.checkpoint_hook == e.hooks.checkpoint_hook && a.hooks.loop_timeout == e.hooks.loop_timeout,
            ReMethod::SetBeforePlan(h) => r matches Ok(a) && a.hooks.before_plan == h && a.hooks.md_validator == e.hooks.md_validator && a.hooks.md_normalizer == e.hooks.md_normalizer && a.hooks.scan_id_source == e.hooks.scan_id_source && a.hooks.after_plan == e.hooks.after_plan && a.hooks.input_handler == e.hooks.input_handler && a.hooks.checkpoint_hook == e.hooks.checkpoint_hook && a.hooks.loop_timeout == e.hooks.loop_timeout,
            ReMethod::SetAfterPlan(h) => r matches Ok(a) && a.hooks.after_plan == h && a.hooks.md_validator == e.hooks.md_validator && a.hooks.md_normalizer == e.hooks.md_normalizer && a.hooks.scan_id_source == e.hooks.scan_id_source && a.hooks.before_plan == e.hooks.before_plan && a.hooks.input_handler == e.hooks.input_handler && a.hooks.checkpoint_hook == e.hooks.checkpoint_hook && a.hooks.loop_timeout == e.hooks.loop_timeout,
            ReMethod::SetInputHandler(h) => r matches Ok(a) && a.hooks.input_handler == h && a.hooks.md_validator == e.hooks.md_validator && a.hooks.md_normalizer == e.hooks.md_normalizer && a.hooks.scan_id_source == e.hooks.scan_id_source && a.hooks.before_plan == e.hooks.before_plan && a.hooks.after_plan == e.hooks.after_plan && a.hooks.checkpoint_hook == e.hooks.checkpoint_hook && a.hooks.loop_timeout == e.hooks.loop_timeout,
            ReMethod::SetLoopTimeout(t) => r matches Ok(a) && a.hooks.loop_timeout == t && a.hooks.md_validator == e.hooks.md_validator && a.hooks.md_normalizer == e.hooks.md_normalizer && a.hooks.scan_id_source == e.hooks.scan_id_source && a.hooks.before_plan == e.hooks.before_plan && a.hooks.after_plan == e.hooks.after_plan && a.hooks.input_handler == e.hooks.input_handler && a.hooks.checkpoint_hook == e.hooks.checkpoint_hook,
            _ => r matches Ok(a) ==> a.hooks == e.hooks,
        },
{
}

/// A method does to the engine what it is named for: a pause pauses, at once or at the next
/// checkpoint; a resume ends a pause; an abort, a halt and a stop end the run call, each in its own
/// way; the metadata are set, removed and replaced by key; commands, pausable devices and
/// subscriptions come and go under their own names.
pub proof fn law_methods_do_what_they_say(e: EngineView, m: ReMethod, k: Seq<char>)
    ensures
        match (m, re_after(e, m)) {
            (ReMethod::Pause(d), r) => r matches Ok(a) && (if d == Some(true) {
                a.control.deferred_pause && a.control.is_paused == e.control.is_paused
            } else {
                a.control.is_paused
            }),
            (ReMethod::RequestPause(d), r) => r matches Ok(a) && (if d == Some(true) {
                a.control.deferred_pause && a.control.is_paused == e.control.is_paused
            } else {
                a.control.is_paused
            }),
            (ReMethod::RequestSuspend(_), r) => r matches Ok(a) && a.control.is_paused,
            (ReMethod::SuspendUntil(_), r) => r matches Ok(a) && a.control.is_paused,
            (ReMethod::Resume, r) => r matches Ok(a) && !a.control.is_paused,
            (ReMethod::Abort(_), r) => r matches Ok(a) && a.control.is_aborting
                && a.control.cancelled && a.control.is_halting == e.control.is_halting
                && a.control.is_stopping == e.control.is_stopping,
            (ReMethod::Halt, r) => r matches Ok(a) && a.control.is_halting && a.control.cancelled,
            (ReMethod::Stop, r) => r matches Ok(a) && a.control.is_stopping && a.control.cancelled
                && a.control.is_halting == e.control.is_halting,
            (ReMethod::MdSet(key, v), r) => match lua_json(v.deep_view()) {
                Ok(j) => r matches Ok(a) && a.md.dom().contains(key@) && a.md[key@] == j && (k
                    != key@ ==> a.md.dom().contains(k) == e.md.dom().contains(k) && (
                e.md.dom().contains(k) ==> a.md[k] == e.md[k])),
                Err(_) => r is Err,
            },
            (ReMethod::MdRemove(key), r) => r matches Ok(a) && !a.md.dom().contains(key@) && (k
                != key@ ==> a.md.dom().contains(k) == e.md.dom().contains(k) && (
            e.md.dom().contains(k) ==> a.md[k] == e.md[k])),
            (ReMethod::MdReplace(pairs), r) => match lua_map(pairs_view(pairs@), false) {
                Ok(md) => r matches Ok(a) && a.md == md,
                Err(_) => r is Err,
            },
            (ReMethod::SetRecordInterruptions(on), r) => r matches Ok(a)
                && a.control.record_interruptions == on,
            (ReMethod::ClearPreprocessors, r) => r matches Ok(a) && a.preprocessors.len() == 0,
            (ReMethod::RegisterCommand(name, h), r) => r matches Ok(a) ==> a.commands.dom().contains(
                name@,
            ) && a.commands[name@] == h,
            (ReMethod::UnregisterCommand(name), r) => r matches Ok(a)
                ==> !a.commands.dom().contains(name@),
            (ReMethod::RegisterPausable(d), r) => (r is Ok <==> d.pausable is Some) && (r matches Ok(
                a,
            ) ==> a.pausables.dom().contains(d.pausable->0.name@)),
            (ReMethod::UnregisterPausable(PausableArg::Name(n)), r) => r matches Ok(a)
                && !a.pausables.dom().contains(n@),
            (ReMethod::UnregisterPausable(PausableArg::Device(d)), r) => r matches Ok(a)
                && !a.pausables.dom().contains(d.name@),
            _ => true,
        },
        re_after(e, m) matches Ok(a) ==> a.bundler == e.bundler && a.groups == e.groups && a.staged
            == e.staged && a.msg_cache == e.msg_cache && a.replay_queue == e.replay_queue,
{
}

/// The options of a run are the metadata and the callbacks that the script gave: none where it gave
/// nothing, and the functions among the elements in order.
pub proof fn law_run_options_are_what_was_given(
    md: LuaVal,
    subs: LuaVal,
    r: Result<RunOptions, String>,
)
    requires
        call_ensures(run_options, (&md, &subs), r),
    ensures
        r matches Ok(o) ==> {
            &&& md is Nil ==> o.md@ == Map::<Seq<char>, JsonView>::empty()
            &&& md.deep_view() matches LuaView::Table { pairs, .. } ==> lua_map(pairs, false)
                == Ok::<Map<Seq<char>, JsonView>, Seq<char>>(o.md@)
            &&& subs is Nil ==> o.subs@.len() == 0
            &&& subs.deep_view() matches LuaView::Table { items, .. } ==> o.subs@
                == functions_among(items)
            &&& md is Nil || md is Table
            &&& subs is Nil || subs is Table
        },
        md is Nil && subs is Nil ==> r is Ok,
{
}

/// A script is told how a run ended: its status and its UID, or a dash where there was no run. A
/// call that failed is told with its error.
pub proof fn law_run_is_told_as_it_ended(r: Result<RunResult, CirrusError>, s: Result<String, String>)
    requires
        call_ensures(run_reply, (r,), s),
    ensures
        r is Ok <==> s is Ok,
        r matches Ok(x) ==> s->Ok_0@ == "exit_status="@ + x.exit_status@ + " run_uid="@ + match x.run_uid {
            Some(u) => u@,
            None => "—"@,
        },
        r matches Err(e) ==> s->Err_0@ == "plan failed: "@ + match e {
            CirrusError::Backend(t) => t@,
            CirrusError::Cancelled => "cancelled"@,
            CirrusError::InvalidValue(t) => t@,
            CirrusError::Plan(t) => t@,
            CirrusError::Timeout(_) => "timed out"@,
        },
{
}

/// A plan that is run with options is used up, and what is run is that plan with the metadata and
/// the callbacks that were given.
pub proof fn law_plan_is_run_with_its_options(
    plan: &mut LuaPlan,
    md: &LuaVal,
    subs: &LuaVal,
    r: Result<(LuaPlanKind, RunOptions), String>,
    o: Result<RunOptions, String>,
)
    requires
        call_ensures(run_with_options, (plan, md, subs), r),
        call_ensures(run_options, (md, subs), o),
    ensures
        final(plan).kind is None,
        r is Ok <==> old(plan).kind is Some && o is Ok,
        r matches Ok(p) ==> old(plan).kind == Some(p.0) && p.1.md@ == o->Ok_0.md@ && p.1.subs@
            == o->Ok_0.subs@,
{
}

/// The result of a message is told once: the script gets it, and the engine keeps none.
pub proof fn law_result_is_told_once(e: &mut LuaRunEngine, v: LuaOut)
    requires
        call_ensures(LuaRunEngine::take_msg_result, (e,), v),
    ensures
        final(e).re@.last_msg_result is Nothing,
        final(e).re@.md == old(e).re@.md,
        match old(e).re@.last_msg_result {
            MsgResultView::Nothing => v.deep_view() is Nil,
            MsgResultView::OpenRun { uid } => v.deep_view() == crate::lua_value::OutView::Str(uid),
            MsgResultView::Status { group } => v.deep_view() == crate::lua_value::OutView::Str(
                group,
            ),
            MsgResultView::CloseRun { exit_status } => v.deep_view()
                == crate::lua_value::OutView::Str(exit_status),
            MsgResultView::Input { text } => v.deep_view() == crate::lua_value::OutView::Str(text),
            _ => true,
        },
{
}

/// A method does to the engine what it says, or is refused and does nothing; the reason that a
/// script gives for an abort or a suspension is noted as it was given. The state is told by name.
pub proof fn law_methods_are_called(
    e: &mut LuaRunEngine,
    m: ReMethod,
    r: Result<Option<String>, String>,
    f: &LuaRunEngine,
    s: &'static str,
)
    requires
        call_ensures(LuaRunEngine::call, (e, m), r),
        call_ensures(LuaRunEngine::state, (f,), s),
    ensures
        match re_after(old(e).re@, m) {
            Ok(a) => r is Ok && final(e).re@ == a,
            Err(_) => r is Err && final(e).re@ == old(e).re@,
        },
        r matches Ok(n) ==> (match m {
            ReMethod::Abort(Some(why)) => n matches Some(t) && t@ == why@,
            ReMethod::RequestSuspend(Some(why)) => n matches Some(t) && t@ == why@,
            ReMethod::SuspendUntil(Some(why)) => n matches Some(t) && t@ == why@,
            _ => true,
        }),
        s@ == "Idle"@ <==> !f.re@.control.is_running,
        f.re@.control.is_running && f.re@.control.is_halting ==> s@ == "Halting"@,
        f.re@.control.is_running && !f.re@.control.is_halting && f.re@.control.is_aborting ==> s@
            == "Aborting"@,
        f.re@.control.is_running && !f.re@.control.is_halting && !f.re@.control.is_aborting
            && f.re@.control.is_paused ==> s@ == "Paused"@,
        f.re@.control.is_running && !f.re@.control.is_halting && !f.re@.control.is_aborting
            && !f.re@.control.is_paused ==> s@ == "Running"@,
{
    reveal_strlit("Idle");
    reveal_strlit("Running");
    reveal_strlit("Paused");
    reveal_strlit("Aborting");
    reveal_strlit("Halting");
    assert("Idle"@.len() == 4 && "Running"@.len() == 7 && "Paused"@.len() == 6 && "Aborting"@.len()
        == 8 && "Halting"@.len() == 7);
}

} // verus!
