//! How coroutines become plans, and how documents reach the subscribers of scripts.

use vstd::prelude::*;
use vstd::string::*;

use crate::engine::MsgResult;
use crate::error::{is_plan_error, CirrusError};
use crate::lua_device::location_table;
use crate::lua_msg::{lua_map, lua_table_to_json_md};
use crate::lua_value::{
    json_out, json_to_lua, out_fields, out_view, pairs_view, readings_out, readings_table, LuaOut,
    LuaVal, OutView,
};
use crate::msg::Msg;
use crate::reading::ReadingValue;
use crate::strmap::StrMap;
use crate::text::{join2, str_eq};
use crate::value::{Json, JsonView};

verus! {

/// The command that fails a run whose coroutine raised an error.
pub open spec fn bridge_error_cmd() -> Seq<char> {
    "_cirrus_lua_bridge_error"@
}

/// What a coroutine is resumed with.
#[derive(Copy, Clone, Debug, PartialEq, Eq, Structural)]
pub enum Resume {
    /// The arguments that it was made with.
    Start,
    /// The result of the message that it yielded last.
    Result,
    /// Nothing.
    Nothing,
}

/// What a coroutine came back with.
#[derive(Debug)]
pub enum Resumed {
    /// A message; `true` if the coroutine can go on.
    Msg(Msg, bool),
    /// Another value; `true` if the coroutine can go on.
    Value(bool),
    /// An error, by its text.
    Error(String),
}

/// What the plan does with it.
#[derive(Debug)]
pub enum PlanStep {
    /// Yields a message.
    Yield(Msg),
    /// Fails the run with a custom command, whose payload is this text.
    Fail(String),
    /// Skips a value that is no message, with a warning, and resumes the coroutine.
    Skip,
    /// Ends.
    End,
}

/// A coroutine that drives a plan.
#[derive(Debug)]
pub struct CoroutinePlan {
    started: bool,
    have_pending_result: bool,
    finished: bool,
}

/// What a [`CoroutinePlan`] stands for.
pub struct CoroutineView {
    /// Whether the coroutine has been resumed.
    pub started: bool,
    /// Whether the result of a message is still to be handed back.
    pub pending: bool,
    /// Whether the plan has ended.
    pub finished: bool,
}

impl View for CoroutinePlan {
    type V = CoroutineView;

    closed spec fn view(&self) -> CoroutineView {
        CoroutineView {
            started: self.started,
            pending: self.have_pending_result,
            finished: self.finished,
        }
    }
}

/// What the coroutine is resumed with next; nothing once the plan has ended.
pub open spec fn resumes_with(c: CoroutineView) -> Option<Resume> {
    if c.finished {
        None
    } else if !c.started {
        Some(Resume::Start)
    } else if c.pending {
        Some(Resume::Result)
    } else {
        Some(Resume::Nothing)
    }
}

/// What asking for the next resumption gives.
pub open spec fn resuming(before: CoroutineView, after: CoroutineView, r: Option<Resume>) -> bool {
    &&& r == resumes_with(before)
    &&& after == match r {
        None => before,
        Some(Resume::Start) => CoroutineView { started: true, ..before },
        Some(_) => CoroutineView { pending: false, ..before },
    }
}

/// What comes of what the coroutine came back with.
pub open spec fn came_back(
    before: CoroutineView,
    after: CoroutineView,
    came: Resumed,
    s: PlanStep,
) -> bool {
    match came {
        Resumed::Msg(m, on) => {
            &&& s == PlanStep::Yield(m)
            &&& after == CoroutineView { pending: true, finished: !on, ..before }
        },
        Resumed::Value(on) => {
            &&& s == if on {
                PlanStep::Skip
            } else {
                PlanStep::End
            }
            &&& after == CoroutineView { finished: !on, ..before }
        },
        Resumed::Error(e) => {
            &&& s matches PlanStep::Fail(t)
            &&& t@ == "Lua coroutine error: "@ + e@
            &&& after == CoroutineView { finished: true, ..before }
        },
    }
}

impl CoroutinePlan {
    /// A plan whose coroutine has not been resumed. Before the first resumption the host drops
    /// what the engine still holds of an earlier message.
    pub fn new() -> (c: Self)
        ensures
            c@ == (CoroutineView { started: false, pending: false, finished: false }),
    {
        CoroutinePlan { started: false, have_pending_result: false, finished: false }
    }

    /// What to resume the coroutine with.
    pub fn next_resume(&mut self) -> (r: Option<Resume>)
        ensures
            resuming(old(self)@, final(self)@, r),
    {
        if self.finished {
            None
        } else if !self.started {
            self.started = true;
            Some(Resume::Start)
        } else if self.have_pending_result {
            self.have_pending_result = false;
            Some(Resume::Result)
        } else {
            Some(Resume::Nothing)
        }
    }

    /// Takes what the coroutine came back with.
    pub fn resumed(&mut self, came: Resumed) -> (s: PlanStep)
        ensures
            came_back(old(self)@, final(self)@, came, s),
    {
        match came {
            Resumed::Msg(m, on) => {
                self.have_pending_result = true;
                self.finished = !on;
                PlanStep::Yield(m)
            },
            Resumed::Value(on) => {
                self.finished = !on;
                if on {
                    PlanStep::Skip
                } else {
                    PlanStep::End
                }
            },
            Resumed::Error(e) => {
                self.finished = true;
                PlanStep::Fail(join2("Lua coroutine error: ", &e))
            },
        }
    }
}

/// A plan that has failed or ended does not resume its coroutine again.
pub proof fn law_no_resumption_after_the_end(c: CoroutineView)
    requires
        c.finished,
    ensures
        resumes_with(c) is None,
{
}

/// A coroutine that yields a message and can go on is handed the result of that message, once.
pub proof fn law_result_is_handed_back_once(c: CoroutineView)
    requires
        c.started,
    ensures
        ({
            let yielded = CoroutineView { pending: true, finished: false, ..c };
            let resumed = CoroutineView { pending: false, ..yielded };
            &&& resumes_with(yielded) == Some(Resume::Result)
            &&& resumes_with(resumed) == Some(Resume::Nothing)
        }),
{
}

/// The error with which a run fails whose coroutine raised one.
pub fn bridge_error(detail: Option<String>) -> (e: CirrusError)
    ensures
        is_plan_error(
            e,
            match detail {
                Some(d) => d@,
                None => "Lua coroutine error (no detail)"@,
            },
        ),
{
    match detail {
        Some(d) => CirrusError::Plan(d),
        None => CirrusError::plan("Lua coroutine error (no detail)"),
    }
}

/// Whether a command is the library's own.
pub fn is_bridge_command(name: &str) -> (yes: bool)
    ensures
        yes == (name@ == bridge_error_cmd()),
{
    str_eq(name, "_cirrus_lua_bridge_error")
}

/// What a script gets of the result of a message.
pub open spec fn result_out(r: MsgResult) -> OutView {
    match r {
        MsgResult::Nothing => OutView::Nil,
        MsgResult::OpenRun { uid } => OutView::Str(uid@),
        MsgResult::Status { group } => OutView::Str(group@),
        MsgResult::CloseRun { exit_status } => OutView::Str(exit_status@),
        MsgResult::Reading { data } => readings_out(data.pairs()),
        MsgResult::Location { setpoint, readback } => OutView::Fields(
            seq![
                ("setpoint"@, OutView::Number(setpoint)),
                ("readback"@, OutView::Number(readback)),
            ],
        ),
        MsgResult::Input { text } => OutView::Str(text@),
        MsgResult::EngineClass { name } => OutView::Str(name@),
        MsgResult::SubscriptionId { id } => OutView::Integer(id as i64),
    }
}

/// What a script gets of the result of a message.
pub fn msg_result_to_lua(r: MsgResult) -> (v: LuaOut)
    ensures
        v.deep_view() == result_out(r),
{
    match r {
        MsgResult::Nothing => LuaOut::Nil,
        MsgResult::OpenRun { uid } => LuaOut::Str(uid),
        MsgResult::Status { group } => LuaOut::Str(group),
        MsgResult::CloseRun { exit_status } => LuaOut::Str(exit_status),
        MsgResult::Reading { data } => readings_table(&data),
        MsgResult::Location { setpoint, readback } => location_table(setpoint, readback),
        MsgResult::Input { text } => LuaOut::Str(text),
        MsgResult::EngineClass { name } => LuaOut::Str(name),
        MsgResult::SubscriptionId { id } => LuaOut::Integer(#[verifier::truncate] (id as i64)),
    }
}

/// The table of metadata that a callback of a script is given.
pub open spec fn md_out(pairs: Seq<(Seq<char>, JsonView)>) -> OutView {
    OutView::Fields(pairs.map_values(|p: (Seq<char>, JsonView)| (p.0, json_out(p.1))))
}

/// The table of metadata that a callback of a script is given.
pub fn json_md_to_lua_table(md: &StrMap<Json>) -> (v: LuaOut)
    ensures
        v.deep_view() == md_out(md.pairs()),
{
    let mut fields: Vec<(String, LuaOut)> = Vec::new();
    let mut i: usize = 0;
    while i < md.len()
        invariant
            i <= md.pairs().len(),
            fields@.len() == i,
            forall|k: int|
                0 <= k < i ==> (#[trigger] fields@[k]).0@ == md.pairs()[k].0 && out_view(
                    fields@[k].1,
                ) == json_out(md.pairs()[k].1),
        decreases md.pairs().len() - i,
    {
        fields.push((md.key_at(i).clone(), json_to_lua(md.value_at(i))));
        i += 1;
    }
    let v = out_fields(fields);
    assert(v.deep_view()->Fields_0 =~= md_out(md.pairs())->Fields_0);
    v
}

/// What validation gives, where the function of the script returned nothing, returned a text, or
/// raised an error.
pub fn validator_outcome(res: Result<Option<String>, String>) -> (r: Result<(), CirrusError>)
    ensures
        match res {
            Ok(None) => r is Ok,
            Ok(Some(s)) => r matches Err(e) && is_plan_error(e, s@),
            Err(e) => r matches Err(x) && is_plan_error(x, "Lua md_validator: "@ + e@),
        },
{
    match res {
        Ok(None) => Ok(()),
        Ok(Some(s)) => Err(CirrusError::Plan(s)),
        Err(e) => Err(CirrusError::Plan(join2("Lua md_validator: ", &e))),
    }
}

/// What normalization gives, where the function of the script returned a table or raised an
/// error.
pub fn normalizer_outcome(res: Result<Vec<(LuaVal, LuaVal)>, String>) -> (r: Result<
    StrMap<Json>,
    CirrusError,
>)
    ensures
        match res {
            Ok(pairs) => match lua_map(pairs_view(pairs@), false) {
                Ok(m) => r matches Ok(md) && md@ == m,
                Err(e) => r matches Err(x) && is_plan_error(x, "Lua md_normalizer: "@ + e),
            },
            Err(e) => r matches Err(x) && is_plan_error(x, "Lua md_normalizer: "@ + e@),
        },
{
    match res {
        Ok(pairs) => match lua_table_to_json_md(&pairs) {
            Ok(md) => Ok(md),
            Err(e) => Err(CirrusError::Plan(join2("Lua md_normalizer: ", &e))),
        },
        Err(e) => Err(CirrusError::Plan(join2("Lua md_normalizer: ", &e))),
    }
}

/// The error of a callback of a script that raised one; `what` says which callback it was.
pub fn callback_error(what: &str, e: &str) -> (x: CirrusError)
    ensures
        is_plan_error(x, "Lua "@ + what@ + ": "@ + e@),
{
    CirrusError::Plan(crate::text::join3(&join2("Lua ", what), ": ", e))
}

/// What a custom command carries.
#[derive(Debug)]
pub enum Payload {
    /// Text.
    Text(String),
    /// JSON, as it is written.
    Json(String),
    /// Anything else.
    Opaque,
}

/// The text that the handler of a command is given.
pub fn payload_text(p: Payload) -> (s: String)
    ensures
        s@ == match p {
            Payload::Text(t) => t@,
            Payload::Json(t) => t@,
            Payload::Opaque => "<opaque>"@,
        },
{
    match p {
        Payload::Text(t) => t,
        Payload::Json(t) => t,
        Payload::Opaque => "<opaque>".to_owned(),
    }
}

/// The message that goes on in place of another, given what the function of the script returned:
/// a message, or nothing of the kind.
pub fn mutated_msg(original: Msg, returned: Option<Msg>) -> (m: Msg)
    ensures
        m == match returned {
            Some(r) => r,
            None => original,
        },
{
    match returned {
        Some(r) => r,
        None => original,
    }
}

/// A document on its way to a subscriber: its name and its body.
#[derive(Debug)]
pub struct Delivery {
    /// The name.
    pub name: String,
    /// The body, as it is written.
    pub body: String,
}

/// A subscriber of a script.
#[derive(Debug)]
pub struct LuaSubscriber {
    callback: u64,
    filter: Option<String>,
    buffer: Vec<Delivery>,
}

/// What a [`LuaSubscriber`] stands for.
pub struct SubscriberView {
    /// The handle of the callback.
    pub callback: u64,
    /// Which documents it wants.
    pub filter: Option<Seq<char>>,
    /// What waits for it.
    pub buffer: Seq<Delivery>,
}

impl View for LuaSubscriber {
    type V = SubscriberView;

    closed spec fn view(&self) -> SubscriberView {
        SubscriberView {
            callback: self.callback,
            filter: self.filter.deep_view(),
            buffer: self.buffer@,
        }
    }
}

/// Whether a subscriber wants a document of the given name.
pub open spec fn wants(filter: Option<Seq<char>>, name: Seq<char>) -> bool {
    match filter {
        None => true,
        Some(f) => f == name || f == "all"@,
    }
}

/// What handing a document to a subscriber gives.
pub open spec fn delivered(
    before: SubscriberView,
    after: SubscriberView,
    doc: Delivery,
    on_script_thread: bool,
    now: Option<Delivery>,
) -> bool {
    if !wants(before.filter, doc.name@) {
        now is None && after == before
    } else if on_script_thread {
        now == Some(doc) && after == before
    } else {
        now is None && after == SubscriberView { buffer: before.buffer.push(doc), ..before }
    }
}

impl LuaSubscriber {
    /// A subscriber for whom nothing waits.
    pub fn new(callback: u64, filter: Option<String>) -> (s: Self)
        ensures
            s@ == (SubscriberView { callback, filter: filter.deep_view(), buffer: seq![] }),
    {
        LuaSubscriber { callback, filter, buffer: Vec::new() }
    }

    /// The handle of the callback.
    pub fn callback(&self) -> (c: u64)
        ensures
            c == self@.callback,
    {
        self.callback
    }

    /// Takes a document. On the thread of the script it is handed out at once; on another
    /// thread it waits. A document that the subscriber does not want goes nowhere.
    pub fn deliver(&mut self, doc: Delivery, on_script_thread: bool) -> (now: Option<Delivery>)
        ensures
            delivered(old(self)@, final(self)@, doc, on_script_thread, now),
    {
        let wanted = match &self.filter {
            None => true,
            Some(f) => str_eq(f, &doc.name) || str_eq(f, "all"),
        };
        if !wanted {
            None
        } else if on_script_thread {
            Some(doc)
        } else {
            self.buffer.push(doc);
            None
        }
    }

    /// Hands out what waits, oldest first.
    pub fn drain(&mut self) -> (docs: Vec<Delivery>)
        ensures
            docs@ == old(self)@.buffer,
            final(self)@ == (SubscriberView { buffer: seq![], ..old(self)@ }),
    {
        let mut docs: Vec<Delivery> = Vec::new();
        std::mem::swap(&mut docs, &mut self.buffer);
        docs
    }
}

/// What waits for a subscriber after documents came in on other threads.
pub open spec fn waiting(buffer: Seq<Delivery>, filter: Option<Seq<char>>, docs: Seq<Delivery>) -> Seq<
    Delivery,
>
    decreases docs.len(),
{
    if docs.len() == 0 {
        buffer
    } else {
        let before = waiting(buffer, filter, docs.drop_last());
        if wants(filter, docs.last().name@) {
            before.push(docs.last())
        } else {
            before
        }
    }
}

/// Tells the documents that a subscriber wants.
pub open spec fn wanted_by(filter: Option<Seq<char>>) -> spec_fn(Delivery) -> bool {
    |d: Delivery| wants(filter, d.name@)
}

/// No document that a subscriber wants is lost on another thread, and none comes twice or out of
/// order: what waits is what waited, then what it wants of what came in.
pub proof fn law_nothing_is_lost(buffer: Seq<Delivery>, filter: Option<Seq<char>>, docs: Seq<Delivery>)
    ensures
        waiting(buffer, filter, docs) =~= buffer + docs.filter(wanted_by(filter)),
    decreases docs.len(),
{
    reveal(Seq::filter);
    if docs.len() > 0 {
        law_nothing_is_lost(buffer, filter, docs.drop_last());
    }
}

/// The subscribers of scripts.
#[derive(Debug)]
pub struct LuaSubscribers {
    subs: Vec<LuaSubscriber>,
}

impl LuaSubscribers {
    /// The subscribers, in the order in which they came.
    pub closed spec fn all(&self) -> Seq<LuaSubscriber> {
        self.subs@
    }

    /// No subscribers.
    pub fn new() -> (s: Self)
        ensures
            s.all() == Seq::<LuaSubscriber>::empty(),
    {
        LuaSubscribers { subs: Vec::new() }
    }

    /// Adds a subscriber.
    pub fn make_lua_subscriber_cb(&mut self, callback: u64, filter: Option<String>)
        ensures
            final(self).all().len() == old(self).all().len() + 1,
            final(self).all().drop_last() == old(self).all(),
            final(self).all().last()@ == (SubscriberView {
                callback,
                filter: filter.deep_view(),
                buffer: seq![],
            }),
    {
        self.subs.push(LuaSubscriber::new(callback, filter));
        assert(self.subs@.drop_last() =~= old(self).subs@);
    }

    /// Hands a document to the subscriber at the given place.
    pub fn deliver(&mut self, at: usize, doc: Delivery, on_script_thread: bool) -> (now: Option<
        Delivery,
    >)
        requires
            at < old(self).all().len(),
        ensures
            final(self).all().len() == old(self).all().len(),
            forall|i: int|
                0 <= i < old(self).all().len() && i != at ==> #[trigger] final(self).all()[i]
                    == old(self).all()[i],
            delivered(
                old(self).all()[at as int]@,
                final(self).all()[at as int]@,
                doc,
                on_script_thread,
                now,
            ),
    {
        let ghost before = self.subs@;
        let mut list: Vec<LuaSubscriber> = Vec::new();
        std::mem::swap(&mut list, &mut self.subs);
        let mut s = list.remove(at);
        let now = s.deliver(doc, on_script_thread);
        list.insert(at, s);
        assert forall|i: int| 0 <= i < before.len() && i != at implies #[trigger] list@[i]
            == before[i] by {
        }
        self.subs = list;
        now
    }

    /// Takes out what waits: for each subscriber in turn its callback and its documents, oldest
    /// first. Then drops the subscribers that are not alive any more.
    pub fn drain(&mut self, alive: &Vec<bool>) -> (calls: Vec<(u64, Vec<Delivery>)>)
        requires
            alive@.len() == old(self).all().len(),
        ensures
            calls@.len() == old(self).all().len(),
            forall|i: int|
                0 <= i < calls@.len() ==> (#[trigger] calls@[i]).0 == old(self).all()[i]@.callback
                    && calls@[i].1@ == old(self).all()[i]@.buffer,
            survivors(old(self).all(), alive@, final(self).all()),
    {
        let ghost before = self.subs@;
        let mut list: Vec<LuaSubscriber> = Vec::new();
        std::mem::swap(&mut list, &mut self.subs);
        let mut calls: Vec<(u64, Vec<Delivery>)> = Vec::new();
        let mut kept: Vec<LuaSubscriber> = Vec::new();
        let mut i: usize = 0;
        assert(before.take(0) =~= seq![]);
        assert(before.skip(0) =~= before);
        assert(alive@.take(0) =~= seq![]);
        while i < alive.len()
            invariant
                i <= alive.len(),
                alive@.len() == before.len(),
                before == old(self).all(),
                list@ == before.skip(i as int),
                calls@.len() == i,
                forall|k: int|
                    0 <= k < i ==> (#[trigger] calls@[k]).0 == before[k]@.callback && calls@[k].1@
                        == before[k]@.buffer,
                survivors(before.take(i as int), alive@.take(i as int), kept@),
            decreases alive.len() - i,
        {
            let mut s = list.remove(0);
            assert(s == before[i as int]);
            assert(list@ =~= before.skip(i + 1));
            let docs = s.drain();
            calls.push((s.callback(), docs));
            let ghost was = kept@;
            proof {
                assert(before.take(i + 1).drop_last() =~= before.take(i as int));
                assert(alive@.take(i + 1).drop_last() =~= alive@.take(i as int));
            }
            if alive[i] {
                kept.push(s);
                assert(kept@.drop_last() =~= was);
            }
            i += 1;
        }
        assert(before.take(before.len() as int) =~= before);
        assert(alive@.take(alive@.len() as int) =~= alive@);
        self.subs = kept;
        calls
    }
}

/// Whether `after` are those of the subscribers that are alive, with nothing waiting.
pub open spec fn survivors(before: Seq<LuaSubscriber>, alive: Seq<bool>, after: Seq<LuaSubscriber>) -> bool
    decreases before.len(),
{
    if before.len() == 0 || alive.len() != before.len() {
        after.len() == 0
    } else if alive.last() {
        &&& after.len() > 0
        &&& after.last()@ == (SubscriberView { buffer: seq![], ..before.last()@ })
        &&& survivors(before.drop_last(), alive.drop_last(), after.drop_last())
    } else {
        survivors(before.drop_last(), alive.drop_last(), after)
    }
}

/// A coroutine is started with its arguments. What it yields goes to the engine as it is, and the
/// next time it is resumed with the result of that message; after another value it is resumed with
/// nothing. A value that comes with its end ends the plan, and an error fails the run with its text.
pub proof fn law_coroutine_drives_the_plan(
    c0: CoroutineView,
    c1: CoroutineView,
    c2: CoroutineView,
    c3: CoroutineView,
    first: Option<Resume>,
    came: Resumed,
    s: PlanStep,
    second: Option<Resume>,
)
    requires
        !c0.finished,
        resuming(c0, c1, first),
        came_back(c1, c2, came, s),
        resuming(c2, c3, second),
    ensures
        !c0.started ==> first == Some(Resume::Start),
        c0.started ==> first == Some(Resume::Result) || first == Some(Resume::Nothing),
        match came {
            Resumed::Msg(m, on) => s == PlanStep::Yield(m) && second == if on {
                Some(Resume::Result)
            } else {
                None
            },
            Resumed::Value(true) => s is Skip && (!c0.started && !c0.pending || c0.started ==> second
                == Some(Resume::Nothing)),
            Resumed::Value(false) => s is End && second is None,
            Resumed::Error(e) => (s matches PlanStep::Fail(t) && t@ == "Lua coroutine error: "@ + e@)
                && second is None,
        },
{
}

/// A subscriber without a filter, or with the filter `all`, gets every document; one with another
/// filter gets those of that name. On the thread of the script a document is handed over at once; on
/// another thread it waits behind what waits already, and none is dropped.
pub proof fn law_subscriber_gets_what_it_wants(
    before: SubscriberView,
    after: SubscriberView,
    doc: Delivery,
    on_script_thread: bool,
    now: Option<Delivery>,
)
    requires
        delivered(before, after, doc, on_script_thread, now),
    ensures
        after.callback == before.callback && after.filter == before.filter,
        ({
            let wanted = before.filter is None || before.filter->0 == doc.name@ || before.filter->0
                == "all"@;
            &&& wanted && on_script_thread ==> now == Some(doc) && after.buffer == before.buffer
            &&& wanted && !on_script_thread ==> now is None && after.buffer == before.buffer.push(
                doc,
            )
            &&& !wanted ==> now is None && after.buffer == before.buffer
        }),
{
}

/// Documents that come in on other threads wait for a subscriber in the order in which they came:
/// after a course of them there waits what waited before, and then each one that the subscriber
/// wants.
pub proof fn law_documents_wait_in_order(vs: Seq<SubscriberView>, docs: Seq<Delivery>)
    requires
        vs.len() == docs.len() + 1,
        forall|i: int|
            0 <= i < docs.len() ==> delivered(vs[i], vs[i + 1], #[trigger] docs[i], false, None),
    ensures
        vs.last().filter == vs[0].filter,
        vs.last().callback == vs[0].callback,
        vs.last().buffer == waiting(vs[0].buffer, vs[0].filter, docs),
    decreases docs.len(),
{
    if docs.len() > 0 {
        let earlier = docs.drop_last();
        let n = earlier.len() as int;
        assert forall|i: int| 0 <= i < earlier.len() implies delivered(
            vs.drop_last()[i],
            vs.drop_last()[i + 1],
            #[trigger] earlier[i],
            false,
            None,
        ) by {
            assert(earlier[i] == docs[i]);
        }
        law_documents_wait_in_order(vs.drop_last(), earlier);
        assert(delivered(vs[n], vs[n + 1], docs[n], false, None));
        assert(vs.drop_last().last() == vs[n]);
        assert(vs.last() == vs[n + 1]);
    }
}

/// A script gets the result of a message as it is: a UID, a group, a status and a line as text, a
/// location under its two names, an id as a number.
pub proof fn law_results_reach_the_script(r: MsgResult, v: LuaOut)
    requires
        call_ensures(msg_result_to_lua, (r,), v),
    ensures
        match r {
            MsgResult::Nothing => v is Nil,
            MsgResult::OpenRun { uid } => v.deep_view() == OutView::Str(uid@),
            MsgResult::Status { group } => v.deep_view() == OutView::Str(group@),
            MsgResult::CloseRun { exit_status } => v.deep_view() == OutView::Str(exit_status@),
            MsgResult::Input { text } => v.deep_view() == OutView::Str(text@),
            MsgResult::EngineClass { name } => v.deep_view() == OutView::Str(name@),
            MsgResult::SubscriptionId { id } => v == LuaOut::Integer(id as i64),
            MsgResult::Location { setpoint, readback } => v.deep_view() matches OutView::Fields(f)
                && f.len() == 2 && f[0] == ("setpoint"@, OutView::Number(setpoint)) && f[1] == (
                "readback"@,
                OutView::Number(readback),
            ),
            MsgResult::Reading { data } => v.deep_view() matches OutView::Fields(f) && f.len()
                == data.pairs().len() && forall|i: int|
                0 <= i < f.len() ==> (#[trigger] f[i]).0 == data.pairs()[i].0,
        },
{
}

/// What a script's validator, normalizer, factory or mutator comes back with decides: nothing is
/// consent, a text is the reason of a refusal, an error is a failure, and a message takes the place
/// of the original.
pub proof fn law_callbacks_decide(
    res: Result<Option<String>, String>,
    r: Result<(), CirrusError>,
    original: Msg,
    returned: Option<Msg>,
    m: Msg,
)
    requires
        call_ensures(validator_outcome, (res,), r),
        call_ensures(mutated_msg, (original, returned), m),
    ensures
        r is Ok <==> res matches Ok(None),
        res matches Ok(Some(s)) ==> r == Err::<(), CirrusError>(CirrusError::Plan(r->Err_0->Plan_0))
            && r->Err_0->Plan_0@ == s@,
        returned matches Some(x) ==> m == x,
        returned is None ==> m == original,
{
}

/// When what waits is handed out, every subscriber in turn gets all that waits for it, oldest first,
/// by its own callback; then nothing waits for anyone, and those that are not alive are dropped.
pub proof fn law_waiting_documents_are_handed_out(
    s: &mut LuaSubscribers,
    alive: &Vec<bool>,
    calls: Vec<(u64, Vec<Delivery>)>,
    i: int,
    one: &mut LuaSubscriber,
    docs: Vec<Delivery>,
)
    requires
        alive@.len() == old(s).all().len(),
        call_ensures(LuaSubscribers::drain, (s, alive), calls),
        call_ensures(LuaSubscriber::drain, (one,), docs),
    ensures
        calls@.len() == old(s).all().len(),
        0 <= i < calls@.len() ==> calls@[i].0 == old(s).all()[i]@.callback && calls@[i].1@
            == old(s).all()[i]@.buffer,
        0 <= i < final(s).all().len() ==> final(s).all()[i]@.buffer.len() == 0,
        final(s).all().len() <= old(s).all().len(),
        0 <= i < final(s).all().len() ==> kept_alive(
            old(s).all(),
            alive@,
            final(s).all()[i]@,
        ),
        (forall|k: int| 0 <= k < alive@.len() ==> alive@[k]) ==> final(s).all().len()
            == old(s).all().len(),
        docs@ == old(one)@.buffer,
        final(one)@.buffer.len() == 0,
        final(one)@.callback == old(one)@.callback && final(one)@.filter == old(one)@.filter,
{
    lemma_survivors(old(s).all(), alive@, final(s).all(), i);
}

/// Whether a subscriber was among those that are alive.
pub open spec fn kept_alive(
    before: Seq<LuaSubscriber>,
    alive: Seq<bool>,
    v: SubscriberView,
) -> bool {
    exists|j: int|
        0 <= j < before.len() && alive[j] && (#[trigger] before[j])@.callback == v.callback
            && before[j]@.filter == v.filter
}

/// Who survives.
proof fn lemma_survivors(
    before: Seq<LuaSubscriber>,
    alive: Seq<bool>,
    after: Seq<LuaSubscriber>,
    i: int,
)
    requires
        survivors(before, alive, after),
        alive.len() == before.len(),
    ensures
        after.len() <= before.len(),
        0 <= i < after.len() ==> after[i]@.buffer.len() == 0 && kept_alive(
            before,
            alive,
            after[i]@,
        ),
        (forall|k: int| 0 <= k < alive.len() ==> alive[k]) ==> after.len() == before.len(),
    decreases before.len(),
{
    if before.len() > 0 {
        let b = before.drop_last();
        let a = alive.drop_last();
        let rest = if alive.last() {
            after.drop_last()
        } else {
            after
        };
        lemma_survivors(b, a, rest, i);
        if 0 <= i < rest.len() {
            let j = choose|j: int|
                0 <= j < b.len() && a[j] && (#[trigger] b[j])@.callback == rest[i]@.callback
                    && b[j]@.filter == rest[i]@.filter;
            assert(before[j] == b[j]);
            assert(alive[j] == a[j]);
            assert(rest[i] == after[i]);
        } else if 0 <= i < after.len() {
            assert(after[i] == after.last());
            assert(before[before.len() - 1] == before.last());
            assert(alive[before.len() - 1]);
        }
        assert((forall|k: int| 0 <= k < alive.len() ==> alive[k]) ==> forall|k: int|
            0 <= k < a.len() ==> a[k]) by {
            assert(forall|k: int| 0 <= k < a.len() ==> a[k] == alive[k]);
        }
        assert(alive[alive.len() - 1] == alive.last());
    }
}

/// A subscriber is added after those there are, with its callback and its filter and with nothing
/// waiting; a document goes to the subscriber that it is for and to no other.
pub proof fn law_subscribers_are_kept_apart(
    s: &mut LuaSubscribers,
    callback: u64,
    filter: Option<String>,
    t: &mut LuaSubscribers,
    at: usize,
    doc: Delivery,
    on_script_thread: bool,
    now: Option<Delivery>,
    i: int,
)
    requires
        call_ensures(LuaSubscribers::make_lua_subscriber_cb, (s, callback, filter), ()),
        at < old(t).all().len(),
        call_ensures(LuaSubscribers::deliver, (t, at, doc, on_script_thread), now),
    ensures
        final(s).all().len() == old(s).all().len() + 1,
        0 <= i < old(s).all().len() ==> final(s).all()[i] == old(s).all()[i],
        final(s).all().last()@.callback == callback,
        final(s).all().last()@.filter == filter.deep_view(),
        final(s).all().last()@.buffer.len() == 0,
        0 <= i < old(t).all().len() && i != at ==> final(t).all()[i] == old(t).all()[i],
        delivered(
            old(t).all()[at as int]@,
            final(t).all()[at as int]@,
            doc,
            on_script_thread,
            now,
        ),
{
    if 0 <= i < old(s).all().len() {
        assert(final(s).all().drop_last()[i] == old(s).all()[i]);
    }
}

/// A script gets the readings that a message came to as a table of the readings.
pub proof fn law_readings_reach_the_script(data: StrMap<ReadingValue>, v: LuaOut, t: LuaOut)
    requires
        call_ensures(msg_result_to_lua, (MsgResult::Reading { data },), v),
        call_ensures(crate::lua_value::readings_table, (&data,), t),
    ensures
        v.deep_view() == t.deep_view(),
{
}

} // verus!
