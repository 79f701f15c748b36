//! The interactive prompt.

use vstd::prelude::*;
use vstd::string::*;
use vstd::utf8::*;

use crate::lua_msg::names_view;
use crate::lua_value::LuaVal;
use crate::text::{has_prefix, join2, join3, starts_with, str_eq, trim, trimmed};

verus! {

/// Arguments of the prompt.
#[derive(Debug)]
pub struct ReplArgs {
    /// A file of statements to run before the prompt opens.
    pub init: Option<String>,
    /// A file to run in place of the prompt.
    pub script: Option<String>,
    /// Where to publish documents.
    pub doc_zmq: Option<String>,
    /// The file to which documents are appended.
    pub doc_jsonl: Option<String>,
    /// The catalog in which documents are registered.
    pub doc_tiled: Option<String>,
    /// The container in the catalog.
    pub doc_tiled_container: String,
    /// The key of the catalog.
    pub doc_tiled_key: Option<String>,
}

impl Default for ReplArgs {
    fn default() -> (a: Self)
        ensures
            a.init is None,
            a.script is None,
            a.doc_zmq is None,
            a.doc_jsonl is None,
            a.doc_tiled is None,
            a.doc_tiled_container@ == "cirrus"@,
            a.doc_tiled_key is None,
    {
        ReplArgs {
            init: None,
            script: None,
            doc_zmq: None,
            doc_jsonl: None,
            doc_tiled: None,
            doc_tiled_container: "cirrus".to_owned(),
            doc_tiled_key: None,
        }
    }
}

/// The engine and its methods.
pub open spec fn engine_words() -> Seq<Seq<char>> {
    seq![
        "RE"@,
        "RE:run"@,
        "RE:run_async_with"@,
        "RE:pause"@,
        "RE:resume"@,
        "RE:abort"@,
        "RE:halt"@,
        "RE:stop"@,
        "RE:state"@,
        "RE:md_get"@,
        "RE:md_set"@,
        "RE:md_remove"@,
        "RE:md_replace"@,
        "RE:is_paused"@,
        "RE:current_run_uid"@,
        "RE:set_loop_timeout"@,
        "RE:set_record_interruptions"@,
        "RE:record_interruptions_enabled"@,
        "RE:set_input_handler"@,
        "RE:set_md_validator"@,
        "RE:set_md_normalizer"@,
        "RE:set_scan_id_source"@,
        "RE:set_before_plan"@,
        "RE:set_after_plan"@,
        "RE:register_command"@,
        "RE:unregister_command"@,
        "RE:subscribe"@,
        "RE:unsubscribe"@,
        "RE:register_pausable"@,
        "RE:unregister_pausable"@,
        "RE:suspend_until_seconds"@,
        "RE:install_signal_handler"@,
        "RE:next_suspender_id"@,
        "RE:request_pause"@,
        "RE:request_suspend"@,
        "RE:take_msg_result"@,
        "RE:clear_preprocessors"@,
    ]
}

/// Devices and plans.
pub open spec fn factory_words() -> Seq<Seq<char>> {
    seq![
        "soft_detector"@,
        "soft_motor"@,
        "soft_pausable"@,
        "count"@,
        "scan"@,
        "mvr"@,
        "sleep"@,
        "null"@,
        "plan"@,
        "print"@,
    ]
}

/// Namespaces.
pub open spec fn namespace_words() -> Seq<Seq<char>> {
    seq![
        "msg"@,
        "bp"@,
        "bps"@,
        "bpt"@,
        "bpp"@,
        "tiled"@,
    ]
}

/// Messages.
pub open spec fn message_words() -> Seq<Seq<char>> {
    seq![
        "msg.open_run"@,
        "msg.close_run"@,
        "msg.create"@,
        "msg.save"@,
        "msg.drop"@,
        "msg.read"@,
        "msg.set"@,
        "msg.trigger"@,
        "msg.wait"@,
        "msg.sleep"@,
        "msg.checkpoint"@,
        "msg.clear_checkpoint"@,
        "msg.rewindable"@,
        "msg.pause"@,
        "msg.resume"@,
        "msg.null"@,
        "msg.stage"@,
        "msg.unstage"@,
        "msg.stop_dev"@,
        "msg.monitor"@,
        "msg.unmonitor"@,
        "msg.locate"@,
        "msg.kickoff"@,
        "msg.complete"@,
        "msg.prepare"@,
        "msg.wait_for"@,
        "msg.input"@,
        "msg.re_class"@,
        "msg.configure"@,
        "msg.declare_stream"@,
        "msg.collect"@,
        "msg.publish"@,
        "msg.subscribe"@,
        "msg.unsubscribe"@,
        "msg.register_pausable"@,
        "msg.unregister_pausable"@,
        "msg.remove_suspender"@,
    ]
}

/// Words of the language.
pub open spec fn language_words() -> Seq<Seq<char>> {
    seq![
        "function"@,
        "local"@,
        "return"@,
        "coroutine.yield"@,
        "coroutine.create"@,
        "if"@,
        "then"@,
        "else"@,
        "elseif"@,
        "end"@,
        "for"@,
        "while"@,
        "do"@,
        "repeat"@,
        "until"@,
    ]
}

/// Commands of the prompt.
pub open spec fn command_words() -> Seq<Seq<char>> {
    seq![
        ":help"@,
        ":quit"@,
        ":exit"@,
        ":reset"@,
        ":script"@,
    ]
}

/// The words that the prompt completes, in the order in which it offers them.
pub open spec fn completions() -> Seq<Seq<char>> {
    engine_words() + factory_words() + namespace_words() + message_words() + language_words()
        + command_words()
}

/// Adds words.
fn add_words<const N: usize>(words: &mut Vec<&'static str>, more: [&'static str; N])
    ensures
        final(words)@ == old(words)@ + more@,
{
    let mut i: usize = 0;
    assert(more@.take(0) =~= seq![]);
    assert(words@ =~= old(words)@ + more@.take(0));
    while i < N
        invariant
            i <= N,
            words@ == old(words)@ + more@.take(i as int),
        decreases N - i,
    {
        words.push(more[i]);
        i += 1;
        assert(words@ =~= old(words)@ + more@.take(i as int));
    }
    assert(more@.take(N as int) =~= more@);
}

/// What the prompt completes.
#[derive(Debug)]
pub struct CirrusReplHelper {
    keywords: Vec<&'static str>,
}

impl CirrusReplHelper {
    /// The words.
    pub closed spec fn words(&self) -> Seq<&'static str> {
        self.keywords@
    }
}

impl Default for CirrusReplHelper {
    fn default() -> (h: Self)
        ensures
            names_view(h.words()) == completions(),
    {
        let mut w: Vec<&'static str> = Vec::new();
        let ghost before = w@;
        add_words(
            &mut w,
            [
                "RE",
                "RE:run",
                "RE:run_async_with",
                "RE:pause",
                "RE:resume",
                "RE:abort",
                "RE:halt",
                "RE:stop",
                "RE:state",
                "RE:md_get",
                "RE:md_set",
                "RE:md_remove",
                "RE:md_replace",
                "RE:is_paused",
                "RE:current_run_uid",
                "RE:set_loop_timeout",
                "RE:set_record_interruptions",
                "RE:record_interruptions_enabled",
                "RE:set_input_handler",
                "RE:set_md_validator",
                "RE:set_md_normalizer",
                "RE:set_scan_id_source",
                "RE:set_before_plan",
                "RE:set_after_plan",
                "RE:register_command",
                "RE:unregister_command",
                "RE:subscribe",
                "RE:unsubscribe",
                "RE:register_pausable",
                "RE:unregister_pausable",
                "RE:suspend_until_seconds",
                "RE:install_signal_handler",
                "RE:next_suspender_id",
                "RE:request_pause",
                "RE:request_suspend",
                "RE:take_msg_result",
                "RE:clear_preprocessors",
            ],
        );
        assert(names_view(w@) =~= names_view(before) + engine_words());
        let ghost before = w@;
        add_words(
            &mut w,
            [
                "soft_detector",
                "soft_motor",
                "soft_pausable",
                "count",
                "scan",
                "mvr",
                "sleep",
                "null",
                "plan",
                "print",
            ],
        );
        assert(names_view(w@) =~= names_view(before) + factory_words());
        let ghost before = w@;
        add_words(
            &mut w,
            [
                "msg",
                "bp",
                "bps",
                "bpt",
                "bpp",
                "tiled",
            ],
        );
        assert(names_view(w@) =~= names_view(before) + namespace_words());
        let ghost before = w@;
        add_words(
            &mut w,
            [
                "msg.open_run",
                "msg.close_run",
                "msg.create",
                "msg.save",
                "msg.drop",
                "msg.read",
                "msg.set",
                "msg.trigger",
                "msg.wait",
                "msg.sleep",
                "msg.checkpoint",
                "msg.clear_checkpoint",
                "msg.rewindable",
                "msg.pause",
                "msg.resume",
                "msg.null",
                "msg.stage",
                "msg.unstage",
                "msg.stop_dev",
                "msg.monitor",
                "msg.unmonitor",
                "msg.locate",
                "msg.kickoff",
                "msg.complete",
                "msg.prepare",
                "msg.wait_for",
                "msg.input",
                "msg.re_class",
                "msg.configure",
                "msg.declare_stream",
                "msg.collect",
                "msg.publish",
                "msg.subscribe",
                "msg.unsubscribe",
                "msg.register_pausable",
                "msg.unregister_pausable",
                "msg.remove_suspender",
            ],
        );
        assert(names_view(w@) =~= names_view(before) + message_words());
        let ghost before = w@;
        add_words(
            &mut w,
            [
                "function",
                "local",
                "return",
                "coroutine.yield",
                "coroutine.create",
                "if",
                "then",
                "else",
                "elseif",
                "end",
                "for",
                "while",
                "do",
                "repeat",
                "until",
            ],
        );
        assert(names_view(w@) =~= names_view(before) + language_words());
        let ghost before = w@;
        add_words(
            &mut w,
            [
                ":help",
                ":quit",
                ":exit",
                ":reset",
                ":script",
            ],
        );
        assert(names_view(w@) =~= names_view(before) + command_words());
        assert(names_view(w@) =~= completions());
        CirrusReplHelper { keywords: w }
    }
}

/// Whether a byte ends a word.
pub open spec fn ends_word(b: u8) -> bool {
    ||| b == 32
    ||| b == 9
    ||| b == 40
    ||| b == 44
    ||| b == 61
    ||| b == 123
    ||| b == 91
    ||| b == 10
}

/// Where the word starts that ends at the end of `bytes`.
pub open spec fn word_start(bytes: Seq<u8>) -> int
    decreases bytes.len(),
{
    if bytes.len() == 0 {
        0
    } else if ends_word(bytes.last()) {
        bytes.len() as int
    } else {
        word_start(bytes.drop_last())
    }
}

/// Whether `bytes` begin with `head`.
pub open spec fn begins_with(bytes: Seq<u8>, head: Seq<u8>) -> bool {
    head.len() <= bytes.len() && bytes.take(head.len() as int) == head
}

/// Those of the words that begin with `head`; none where that is empty.
pub open spec fn offered(words: Seq<&'static str>, head: Seq<u8>) -> Seq<&'static str>
    decreases words.len(),
{
    if words.len() == 0 || head.len() == 0 {
        seq![]
    } else {
        let before = offered(words.drop_last(), head);
        if begins_with(encode_utf8(words.last()@), head) {
            before.push(words.last())
        } else {
            before
        }
    }
}

/// Whether the bytes of `s` begin with those of `head` from `from` up to `to`.
fn starts_so(s: &str, head: &[u8], from: usize, to: usize) -> (yes: bool)
    requires
        from <= to <= head@.len(),
    ensures
        yes == begins_with(encode_utf8(s@), head@.subrange(from as int, to as int)),
{
    let bytes = s.as_bytes();
    let n: usize = to - from;
    let ghost want = head@.subrange(from as int, to as int);
    if bytes.len() < n {
        return false;
    }
    let mut i: usize = 0;
    while i < n
        invariant
            i <= n,
            n == to - from,
            from <= to <= head@.len(),
            n <= bytes@.len(),
            bytes@ == encode_utf8(s@),
            want == head@.subrange(from as int, to as int),
            forall|k: int| 0 <= k < i ==> #[trigger] bytes@[k] == want[k],
        decreases n - i,
    {
        assert(want[i as int] == head@[from + i]);
        if bytes[i] != head[from + i] {
            assert(bytes@.take(n as int)[i as int] != want[i as int]);
            return false;
        }
        i += 1;
    }
    assert(bytes@.take(n as int) =~= want);
    true
}

impl CirrusReplHelper {
    /// Completes the word before `pos`: where it starts, and the words that begin with it.
    pub fn complete(&self, line: &str, pos: usize) -> (r: (usize, Vec<&'static str>))
        ensures
            ({
                let bytes = encode_utf8(line@);
                let end = if pos < bytes.len() {
                    pos as int
                } else {
                    bytes.len() as int
                };
                let start = word_start(bytes.take(end));
                &&& r.0 == start
                &&& r.1@ == offered(self.words(), bytes.subrange(start, end))
            }),
    {
        let bytes = line.as_bytes();
        let end: usize = if pos < bytes.len() {
            pos
        } else {
            bytes.len()
        };
        let ghost head = bytes@.take(end as int);
        let mut start: usize = end;
        assert(head.take(end as int) =~= head);
        while start > 0 && !(bytes[start - 1] == 32 || bytes[start - 1] == 9 || bytes[start - 1]
            == 40 || bytes[start - 1] == 44 || bytes[start - 1] == 61 || bytes[start - 1] == 123
            || bytes[start - 1] == 91 || bytes[start - 1] == 10)
            invariant
                start <= end <= bytes@.len(),
                head == bytes@.take(end as int),
                word_start(head) == word_start(head.take(start as int)),
            decreases start,
        {
            assert(head.take(start as int).last() == bytes@[start - 1]);
            assert(head.take(start as int).drop_last() =~= head.take(start - 1));
            start -= 1;
        }
        proof {
            if start > 0 {
                assert(head.take(start as int).last() == bytes@[start - 1]);
            }
            assert(word_start(head) == start);
        }
        let mut out: Vec<&'static str> = Vec::new();
        let ghost word = bytes@.subrange(start as int, end as int);
        if start == end {
            assert(offered(self.keywords@, word) =~= seq![]);
            return (start, out);
        }
        let mut i: usize = 0;
        assert(self.keywords@.take(0) =~= seq![]);
        while i < self.keywords.len()
            invariant
                i <= self.keywords.len(),
                start < end <= bytes@.len(),
                word == bytes@.subrange(start as int, end as int),
                out@ == offered(self.keywords@.take(i as int), word),
            decreases self.keywords.len() - i,
        {
            let ghost next = self.keywords@.take(i + 1);
            assert(next.drop_last() =~= self.keywords@.take(i as int));
            assert(next.last() == self.keywords@[i as int]);
            if starts_so(self.keywords[i], bytes, start, end) {
                out.push(self.keywords[i]);
            }
            i += 1;
        }
        assert(self.keywords@.take(self.keywords@.len() as int) =~= self.keywords@);
        (start, out)
    }
}

/// What the prompt does with a line.
#[derive(Debug)]
pub enum ReplAction {
    /// Shows the help.
    Help,
    /// Ends.
    Quit,
    /// Asks for the next line.
    Next,
    /// Runs a file, and then asks for the next line.
    RunScript(String),
    /// Tries the first text as an expression and, if that fails, the second as statements.
    Evaluate {
        /// The text as an expression.
        expression: String,
        /// The text as statements.
        statements: String,
    },
}

/// What an evaluation came to.
#[derive(Debug)]
pub enum Evaluated {
    /// A value, with how the host shows it in full.
    Value(LuaVal, String),
    /// Statements ran.
    Ran,
    /// More input is needed.
    Incomplete,
    /// An error.
    Error(String),
}

/// What is printed after an evaluation.
#[derive(Debug)]
pub enum ReplOutput {
    /// Nothing.
    Nothing,
    /// A line.
    Line(String),
    /// A line of complaint.
    Complaint(String),
}

/// The prompt, with what has been typed of an unfinished statement.
#[derive(Debug)]
pub struct ReplLoop {
    buffer: String,
}

impl ReplLoop {
    /// What has been typed so far.
    pub closed spec fn typed(&self) -> Seq<char> {
        self.buffer@
    }

    /// A prompt at which nothing has been typed.
    pub fn new() -> (l: Self)
        ensures
            l.typed() == Seq::<char>::empty(),
    {
        ReplLoop { buffer: String::new() }
    }

    /// Whether nothing has been typed.
    fn is_empty(&self) -> (yes: bool)
        ensures
            yes == (self.typed().len() == 0),
    {
        self.buffer.as_str().unicode_len() == 0
    }

    /// The prompt to show.
    pub fn prompt(&self) -> (s: &'static str)
        ensures
            s@ == if self.typed().len() == 0 {
                "cirrus> "@
            } else {
                "    ... "@
            },
    {
        if self.is_empty() {
            "cirrus> "
        } else {
            "    ... "
        }
    }

    /// Takes a line. `:reset` drops what has been typed; any other command is obeyed only where
    /// nothing has been typed before it.
    pub fn line(&mut self, line: &str) -> (a: ReplAction)
        ensures
            obeys(old(self).typed(), line@, a, final(self).typed()),
    {
        proof {
            reveal_strlit(":script ");
        }
        let t = trim(line);
        if str_eq(&t, ":reset") {
            self.buffer = String::new();
            return ReplAction::Next;
        }
        if self.is_empty() {
            if str_eq(&t, ":help") {
                return ReplAction::Help;
            }
            if str_eq(&t, ":quit") || str_eq(&t, ":exit") {
                return ReplAction::Quit;
            }
            if starts_with(&t, ":script ") {
                let n: usize = t.as_str().unicode_len();
                let rest = t.as_str().substring_char(7, n);
                assert(rest@ =~= t@.skip(7));
                return ReplAction::RunScript(trim(rest));
            }
            self.buffer = line.to_owned();
        } else {
            self.buffer = join3(&self.buffer, "\n", line);
        }
        ReplAction::Evaluate {
            expression: join2("return ", &self.buffer),
            statements: self.buffer.clone(),
        }
    }

    /// Takes what an evaluation came to. What has been typed is kept only where more input is
    /// needed.
    pub fn evaluated(&mut self, e: Evaluated) -> (out: ReplOutput)
        ensures
            answered(old(self).typed(), e, out, final(self).typed()),
    {
        if !matches!(e, Evaluated::Incomplete) {
            self.buffer = String::new();
        }
        match e {
            Evaluated::Value(LuaVal::Nil, _) => ReplOutput::Nothing,
            Evaluated::Value(LuaVal::Str(s), _) => ReplOutput::Line(s),
            Evaluated::Value(LuaVal::Bytes(_), _) => ReplOutput::Line("".to_owned()),
            Evaluated::Value(_, full) => ReplOutput::Line(full),
            Evaluated::Ran => ReplOutput::Nothing,
            Evaluated::Incomplete => ReplOutput::Nothing,
            Evaluated::Error(m) => ReplOutput::Complaint(join2("error: ", &m)),
        }
    }

    /// Takes an interrupt: what has been typed is dropped. Gives what is printed.
    pub fn interrupted(&mut self) -> (s: &'static str)
        ensures
            s@ == "(buffer cleared)"@,
            final(self).typed() == Seq::<char>::empty(),
    {
        self.buffer = String::new();
        "(buffer cleared)"
    }
}

/// Whether `a` is what the prompt does with `line` after `before` has been typed, and `after` is
/// what has been typed then.
pub open spec fn obeys(before: Seq<char>, line: Seq<char>, a: ReplAction, after: Seq<char>) -> bool {
    let t = trimmed(line);
    let text = if before.len() == 0 {
        line
    } else {
        before + "\n"@ + line
    };
    if t == ":reset"@ {
        a is Next && after == Seq::<char>::empty()
    } else if before.len() == 0 && t == ":help"@ {
        a is Help && after == before
    } else if before.len() == 0 && (t == ":quit"@ || t == ":exit"@) {
        a is Quit && after == before
    } else if before.len() == 0 && has_prefix(t, ":script "@) {
        a matches ReplAction::RunScript(p) && p@ == trimmed(t.skip(7)) && after == before
    } else {
        &&& a matches ReplAction::Evaluate { expression, statements }
        &&& expression@ == "return "@ + text
        &&& statements@ == text
        &&& after == text
    }
}

/// Whether `out` is what is printed after an evaluation came to `e`, and `after` is what has been
/// typed then.
pub open spec fn answered(
    before: Seq<char>,
    e: Evaluated,
    out: ReplOutput,
    after: Seq<char>,
) -> bool {
    &&& after == if e is Incomplete {
        before
    } else {
        Seq::<char>::empty()
    }
    &&& match e {
        Evaluated::Value(LuaVal::Nil, _) => out is Nothing,
        Evaluated::Value(LuaVal::Str(s), _) => out matches ReplOutput::Line(t) && t@ == s@,
        Evaluated::Value(LuaVal::Bytes(_), _) => out matches ReplOutput::Line(t) && t@ == ""@,
        Evaluated::Value(_, full) => out matches ReplOutput::Line(t) && t@ == full@,
        Evaluated::Ran => out is Nothing,
        Evaluated::Incomplete => out is Nothing,
        Evaluated::Error(m) => out matches ReplOutput::Complaint(t) && t@ == "error: "@ + m@,
    }
}

/// Where the history is kept: in the home directory, or in the working directory.
pub fn history_path(home: Option<String>) -> (p: String)
    ensures
        p@ == match home {
            Some(h) => crate::checkpoint_store::path_join(h@, ".cirrus_repl_history"@),
            None => ".cirrus_repl_history"@,
        },
{
    match home {
        Some(h) => crate::checkpoint_store::push_path(&h, ".cirrus_repl_history"),
        None => ".cirrus_repl_history".to_owned(),
    }
}

/// A sink that the prompt opens for documents.
#[derive(Debug)]
pub enum SinkRequest {
    /// A publisher at an address.
    Zmq(String),
    /// A file of lines.
    Jsonl(String),
    /// A container in a catalog, with the key if there is one.
    Tiled {
        /// The catalog.
        url: String,
        /// The container.
        container: String,
        /// The key.
        key: Option<String>,
    },
}

impl ReplArgs {
    /// The key of the catalog: the one that was given, or the one of the environment.
    pub fn tiled_key(&self, environment: Option<String>) -> (k: Option<String>)
        ensures
            k == match self.doc_tiled_key {
                Some(k) => Some(k),
                None => environment,
            },
    {
        match &self.doc_tiled_key {
            Some(k) => Some(k.clone()),
            None => environment,
        }
    }

    /// The sinks to open, in order.
    pub fn sinks(&self, key: Option<String>) -> (v: Vec<SinkRequest>)
        ensures
            v@ == self.wanted_sinks(key),
    {
        let mut v: Vec<SinkRequest> = Vec::new();
        if let Some(a) = &self.doc_zmq {
            v.push(SinkRequest::Zmq(a.clone()));
        }
        if let Some(p) = &self.doc_jsonl {
            v.push(SinkRequest::Jsonl(p.clone()));
        }
        if let Some(u) = &self.doc_tiled {
            let key = self.tiled_key(key);
            v.push(
                SinkRequest::Tiled {
                    url: u.clone(),
                    container: self.doc_tiled_container.clone(),
                    key,
                },
            );
        }
        assert(v@ =~= self.wanted_sinks(key));
        v
    }

    /// The sinks to open, in order.
    pub open spec fn wanted_sinks(&self, key: Option<String>) -> Seq<SinkRequest> {
        let zmq = match self.doc_zmq {
            Some(a) => seq![SinkRequest::Zmq(a)],
            None => seq![],
        };
        let jsonl = match self.doc_jsonl {
            Some(p) => seq![SinkRequest::Jsonl(p)],
            None => seq![],
        };
        let tiled = match self.doc_tiled {
            Some(url) => seq![
                SinkRequest::Tiled {
                    url,
                    container: self.doc_tiled_container,
                    key: match self.doc_tiled_key {
                        Some(k) => Some(k),
                        None => key,
                    },
                },
            ],
            None => seq![],
        };
        zmq + jsonl + tiled
    }
}

/// A statement that goes over several lines is evaluated whole: as long as more input is needed
/// the lines are kept, each under the one before it, and the first evaluation that comes to
/// something starts anew.
pub proof fn law_statement_grows_line_by_line(
    first: Seq<char>,
    second: Seq<char>,
    a: ReplAction,
    b: ReplAction,
    e: Evaluated,
    out: ReplOutput,
    t1: Seq<char>,
    t2: Seq<char>,
    t3: Seq<char>,
    t4: Seq<char>,
    f: Evaluated,
    said: ReplOutput,
)
    requires
        obeys(Seq::empty(), first, a, t1),
        first.len() > 0,
        a is Evaluate,
        answered(t1, e, out, t2),
        e is Incomplete,
        obeys(t2, second, b, t3),
        b is Evaluate,
        answered(t3, f, said, t4),
    ensures
        match a {
            ReplAction::Evaluate { expression, statements } => statements@ == first && expression@
                == "return "@ + first,
            _ => false,
        },
        match b {
            ReplAction::Evaluate { expression, statements } => statements@ == first + "\n"@ + second
                && expression@ == "return "@ + (first + "\n"@ + second),
            _ => false,
        },
        t2 == first,
        f !is Incomplete ==> t4.len() == 0,
        f is Incomplete ==> t4 == first + "\n"@ + second,
{
}

/// Commands are obeyed at the start of a statement and taken as part of it later; only `:reset`
/// is obeyed at any time, and it drops what has been typed.
pub proof fn law_commands_are_obeyed(
    before: Seq<char>,
    line: Seq<char>,
    a: ReplAction,
    after: Seq<char>,
)
    requires
        obeys(before, line, a, after),
    ensures
        trimmed(line) == ":reset"@ ==> a is Next && after.len() == 0,
        a is Next ==> trimmed(line) == ":reset"@,
        a is Quit <==> before.len() == 0 && (trimmed(line) == ":quit"@ || trimmed(line)
            == ":exit"@),
        a is Help <==> before.len() == 0 && trimmed(line) == ":help"@,
        a is RunScript ==> before.len() == 0 && trimmed(line).len() >= 8,
        before.len() > 0 && trimmed(line) != ":reset"@ ==> a is Evaluate,
        a !is Evaluate && a !is Next ==> after == before,
{
    reveal_strlit(":reset");
    reveal_strlit(":help");
    reveal_strlit(":quit");
    reveal_strlit(":exit");
    reveal_strlit(":script ");
    assert(":reset"@[1] == 'r' && ":help"@[1] == 'h' && ":quit"@[1] == 'q' && ":exit"@[1] == 'e');
}

/// A script that is named is run under the name that was typed, without the blanks around it.
pub proof fn law_script_is_run_by_its_name(
    line: Seq<char>,
    name: Seq<char>,
    a: ReplAction,
    after: Seq<char>,
)
    requires
        obeys(Seq::empty(), line, a, after),
        trimmed(line) == ":script "@ + name,
        name.len() > 0,
        trimmed(" "@ + name) == name,
    ensures
        a matches ReplAction::RunScript(p) && p@ == name,
        after.len() == 0,
{
    reveal_strlit(":script ");
    reveal_strlit(" ");
    reveal_strlit(":reset");
    reveal_strlit(":help");
    reveal_strlit(":quit");
    reveal_strlit(":exit");
    let t = trimmed(line);
    assert(t.take(8) =~= ":script "@);
    assert(t.skip(7) =~= " "@ + name);
    assert(t.len() > 8);
}

/// An evaluation is answered with its value: text plainly, anything else as it is shown, nothing
/// where there is no value, and an error as a complaint.
pub proof fn law_evaluations_are_answered(
    before: Seq<char>,
    e: Evaluated,
    out: ReplOutput,
    after: Seq<char>,
)
    requires
        answered(before, e, out, after),
    ensures
        match e {
            Evaluated::Value(LuaVal::Nil, _) => out is Nothing,
            Evaluated::Value(LuaVal::Str(s), _) => out matches ReplOutput::Line(t) && t@ == s@,
            Evaluated::Value(LuaVal::Bytes(_), _) => out matches ReplOutput::Line(t) && t@.len()
                == 0,
            Evaluated::Value(_, full) => out matches ReplOutput::Line(t) && t@ == full@,
            Evaluated::Ran | Evaluated::Incomplete => out is Nothing,
            Evaluated::Error(m) => out matches ReplOutput::Complaint(t) && t@.skip(7) == m@,
        },
        e is Incomplete ==> after == before,
        e !is Incomplete ==> after.len() == 0,
{
    reveal_strlit("error: ");
    reveal_strlit("");
    if let Evaluated::Error(m) = e {
        assert(("error: "@ + m@).skip(7) =~= m@);
    }
}

/// Words that are offered are those that begin with what was typed.
proof fn lemma_offered(words: Seq<&'static str>, head: Seq<u8>, w: &'static str)
    ensures
        offered(words, head).contains(w) <==> head.len() > 0 && words.contains(w) && head.is_prefix_of(
            encode_utf8(w@),
        ),
        offered(words, head).len() <= words.len(),
    decreases words.len(),
{
    if words.len() > 0 && head.len() > 0 {
        let rest = words.drop_last();
        let last = words.last();
        lemma_offered(rest, head, w);
        let before = offered(rest, head);
        assert(words =~= rest.push(last));
        assert(words.contains(w) <==> rest.contains(w) || w == last) by {
            if words.contains(w) {
                let i = choose|i: int| 0 <= i < words.len() && words[i] == w;
                if i < rest.len() {
                    assert(rest[i] == w);
                }
            }
            if rest.contains(w) {
                let i = choose|i: int| 0 <= i < rest.len() && rest[i] == w;
                assert(words[i] == w);
            }
            assert(words[words.len() - 1] == last);
        }
        let bytes = encode_utf8(last@);
        assert(begins_with(bytes, head) <==> head.is_prefix_of(bytes)) by {
            if head.is_prefix_of(bytes) {
                assert(bytes.take(head.len() as int) =~= head);
            }
            if begins_with(bytes, head) {
                assert(head.is_prefix_of(bytes));
            }
        }
        if begins_with(bytes, head) {
            let all = before.push(last);
            assert(all.contains(w) <==> before.contains(w) || w == last) by {
                if all.contains(w) {
                    let i = choose|i: int| 0 <= i < all.len() && all[i] == w;
                    if i < before.len() {
                        assert(before[i] == w);
                    }
                }
                if before.contains(w) {
                    let i = choose|i: int| 0 <= i < before.len() && before[i] == w;
                    assert(all[i] == w);
                }
                assert(all[before.len() as int] == last);
            }
        }
    }
}

/// Words that are offered stand in the order in which the prompt knows them.
proof fn lemma_offered_in_order(a: Seq<&'static str>, b: Seq<&'static str>, head: Seq<u8>)
    ensures
        offered(a + b, head) == offered(a, head) + offered(b, head),
    decreases b.len(),
{
    if b.len() == 0 || head.len() == 0 {
        assert(a + b =~= a || head.len() == 0);
        assert(offered(a + b, head) =~= offered(a, head) + offered(b, head));
    } else {
        assert((a + b).drop_last() =~= a + b.drop_last());
        assert((a + b).last() == b.last());
        lemma_offered_in_order(a, b.drop_last(), head);
        assert(offered(a + b, head) =~= offered(a, head) + offered(b, head));
    }
}

/// Where the last word of a line starts.
proof fn lemma_word_start(bytes: Seq<u8>)
    ensures
        0 <= word_start(bytes) <= bytes.len(),
        forall|i: int| word_start(bytes) <= i < bytes.len() ==> !ends_word(#[trigger] bytes[i]),
        word_start(bytes) > 0 ==> ends_word(bytes[word_start(bytes) - 1]),
    decreases bytes.len(),
{
    if bytes.len() > 0 && !ends_word(bytes.last()) {
        let rest = bytes.drop_last();
        lemma_word_start(rest);
        assert forall|i: int| word_start(bytes) <= i < bytes.len() implies !ends_word(
            #[trigger] bytes[i],
        ) by {
            if i < rest.len() {
                assert(rest[i] == bytes[i]);
            }
        }
    }
}

/// Completion takes the word that ends where the cursor stands: it offers every word that begins
/// with what was typed of it and no other, and nothing where nothing was typed.
pub proof fn law_completion_offers_what_begins_so(
    h: &CirrusReplHelper,
    line: &str,
    pos: usize,
    r: (usize, Vec<&'static str>),
    w: &'static str,
)
    requires
        call_ensures(CirrusReplHelper::complete, (h, line, pos), r),
        pos <= encode_utf8(line@).len(),
    ensures
        r.0 <= pos,
        forall|i: int|
            r.0 <= i < pos ==> ![32u8, 9, 40, 44, 61, 123, 91, 10]@.contains(
                #[trigger] encode_utf8(line@)[i],
            ),
        r.0 > 0 ==> [32u8, 9, 40, 44, 61, 123, 91, 10]@.contains(encode_utf8(line@)[r.0 - 1]),
        r.1@.contains(w) <==> r.0 < pos && h.words().contains(w) && encode_utf8(line@).subrange(
            r.0 as int,
            pos as int,
        ).is_prefix_of(encode_utf8(w@)),
        r.1@.len() <= h.words().len(),
{
    let bytes = encode_utf8(line@);
    let typed = bytes.take(pos as int);
    lemma_word_start(typed);
    lemma_offered(h.words(), bytes.subrange(r.0 as int, pos as int), w);
    let ends = [32u8, 9, 40, 44, 61, 123, 91, 10]@;
    assert forall|b: u8| #[trigger] ends.contains(b) <==> ends_word(b) by {
        assert(ends[0] == 32 && ends[1] == 9 && ends[2] == 40 && ends[3] == 44 && ends[4] == 61
            && ends[5] == 123 && ends[6] == 91 && ends[7] == 10);
    }
    assert forall|i: int| r.0 <= i < pos implies !ends.contains(#[trigger] bytes[i]) by {
        assert(typed[i] == bytes[i]);
    }
}

/// Whether the first `n` of the words that are offered are among the first `k` of the words, and
/// the others among the rest.
pub open spec fn parted_at(
    offers: Seq<&'static str>,
    words: Seq<&'static str>,
    k: int,
    n: int,
) -> bool {
    &&& 0 <= n <= offers.len()
    &&& forall|i: int| 0 <= i < n ==> words.take(k).contains(#[trigger] offers[i])
    &&& forall|i: int| n <= i < offers.len() ==> words.skip(k).contains(#[trigger] offers[i])
}

/// Words are offered in the order in which the prompt knows them.
pub proof fn law_completions_keep_their_order(
    h: &CirrusReplHelper,
    line: &str,
    pos: usize,
    r: (usize, Vec<&'static str>),
    k: int,
)
    requires
        call_ensures(CirrusReplHelper::complete, (h, line, pos), r),
        0 <= k <= h.words().len(),
    ensures
        exists|n: int| #[trigger] parted_at(r.1@, h.words(), k, n),
{
    let words = h.words();
    let bytes = encode_utf8(line@);
    let end = if pos < bytes.len() {
        pos as int
    } else {
        bytes.len() as int
    };
    let head = bytes.subrange(word_start(bytes.take(end)), end);
    let a = words.take(k);
    let b = words.skip(k);
    assert(a + b =~= words);
    lemma_offered_in_order(a, b, head);
    let n = offered(a, head).len() as int;
    assert forall|i: int| 0 <= i < n implies a.contains(#[trigger] r.1@[i]) by {
        assert(offered(a, head)[i] == r.1@[i]);
        lemma_offered(a, head, r.1@[i]);
        assert(offered(a, head).contains(r.1@[i]));
    }
    assert forall|i: int| n <= i < r.1@.len() implies b.contains(#[trigger] r.1@[i]) by {
        assert(offered(b, head)[i - n] == r.1@[i]);
        lemma_offered(b, head, r.1@[i]);
        assert(offered(b, head).contains(r.1@[i]));
    }
    assert(parted_at(r.1@, words, k, n));
}

/// Every sink that was asked for is opened, each once: the publisher first, then the file, then
/// the catalog with its container and with the key that was given or else the one of the
/// environment.
pub proof fn law_every_sink_is_opened(a: &ReplArgs, key: Option<String>, v: Vec<SinkRequest>)
    requires
        call_ensures(ReplArgs::sinks, (a, key), v),
    ensures
        ({
            let z: int = if a.doc_zmq is Some {
                1
            } else {
                0
            };
            let j: int = if a.doc_jsonl is Some {
                1
            } else {
                0
            };
            let t: int = if a.doc_tiled is Some {
                1
            } else {
                0
            };
            &&& v@.len() == z + j + t
            &&& a.doc_zmq matches Some(x) ==> v@[0] == SinkRequest::Zmq(x)
            &&& a.doc_jsonl matches Some(x) ==> v@[z] == SinkRequest::Jsonl(x)
            &&& a.doc_tiled matches Some(x) ==> (match v@[z + j] {
                SinkRequest::Tiled { url, container, key: k } => url == x && container
                    == a.doc_tiled_container && (a.doc_tiled_key is Some ==> k == a.doc_tiled_key)
                    && (a.doc_tiled_key is None ==> k == key),
                _ => false,
            })
        }),
{
}

/// The prompt tells whether a statement is under way, and an interrupt drops it; a key that was
/// given comes before the one of the environment.
pub proof fn law_prompt_tells_of_what_was_typed(
    l: &ReplLoop,
    p: &'static str,
    i: &mut ReplLoop,
    said: &'static str,
    a: &ReplArgs,
    environment: Option<String>,
    k: Option<String>,
)
    requires
        call_ensures(ReplLoop::prompt, (l,), p),
        call_ensures(ReplLoop::interrupted, (i,), said),
        call_ensures(ReplArgs::tiled_key, (a, environment), k),
    ensures
        p@ == "cirrus> "@ <==> l.typed().len() == 0,
        final(i).typed().len() == 0,
        a.doc_tiled_key is Some ==> k == a.doc_tiled_key,
        a.doc_tiled_key is None ==> k == environment,
{
    reveal_strlit("cirrus> ");
    reveal_strlit("    ... ");
    assert("cirrus> "@[0] == 'c' && "    ... "@[0] == ' ');
}

/// The prompt takes lines and outcomes as it is said to.
pub proof fn law_prompt_takes_lines(
    a: &mut ReplLoop,
    line: &str,
    action: ReplAction,
    b: &mut ReplLoop,
    e: Evaluated,
    out: ReplOutput,
    n: ReplLoop,
)
    requires
        call_ensures(ReplLoop::line, (a, line), action),
        call_ensures(ReplLoop::evaluated, (b, e), out),
        call_ensures(ReplLoop::new, (), n),
    ensures
        obeys(old(a).typed(), line@, action, final(a).typed()),
        answered(old(b).typed(), e, out, final(b).typed()),
        n.typed().len() == 0,
{
}

} // verus!
