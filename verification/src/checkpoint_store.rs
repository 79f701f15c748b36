//! The checkpoint log: one record per line, the last of which is the latest.

use vstd::prelude::*;
use vstd::string::*;

use crate::engine::CheckpointSnapshot;
use crate::text::{chars_of, is_space, join2, join3, space};

verus! {

/// One record of the log.
#[derive(Debug)]
pub struct CheckpointRecord {
    /// Wall-clock nanoseconds since the Unix epoch.
    pub timestamp_ns: u64,
    /// UID of the open run, if any.
    pub run_uid: Option<String>,
    /// Version that wrote the record.
    pub cirrus_version: String,
}

/// The record of a snapshot.
pub fn record_of(snapshot: CheckpointSnapshot, version: &str) -> (r: CheckpointRecord)
    ensures
        r.timestamp_ns == snapshot.timestamp_ns,
        r.run_uid == snapshot.run_uid,
        r.cirrus_version@ == version@,
{
    CheckpointRecord {
        timestamp_ns: snapshot.timestamp_ns,
        run_uid: snapshot.run_uid,
        cirrus_version: version.to_owned(),
    }
}

/// A line without the carriage return that a line break may begin with.
pub open spec fn without_return(line: Seq<char>) -> Seq<char> {
    if line.len() > 0 && line.last() == '\r' {
        line.drop_last()
    } else {
        line
    }
}

/// Whether a line holds something besides white space.
pub open spec fn has_content(line: Seq<char>) -> bool {
    exists|i: int| 0 <= i < line.len() && !is_space(#[trigger] line[i])
}

/// The last line of `text` that holds something besides white space, when everything before `at`
/// has been read: the line that `at` stands in begins at `start`, and `best` is the last such line
/// before it.
pub open spec fn last_line(text: Seq<char>, start: int, at: int, best: Option<Seq<char>>) -> Option<
    Seq<char>,
>
    decreases text.len() - at,
{
    if at < 0 || at >= text.len() {
        let line = text.subrange(start, text.len() as int);
        if has_content(line) {
            Some(line)
        } else {
            best
        }
    } else if text[at] == '\n' {
        let line = without_return(text.subrange(start, at));
        last_line(
            text,
            at + 1,
            at + 1,
            if has_content(line) {
                Some(line)
            } else {
                best
            },
        )
    } else {
        last_line(text, start, at + 1, best)
    }
}

/// The last line of `text` that holds something besides white space. Lines end at a line feed,
/// with or without a carriage return before it.
pub open spec fn latest_line(text: Seq<char>) -> Option<Seq<char>> {
    last_line(text, 0, 0, None)
}

/// Whether the characters of `v` between `from` and `to` hold something besides white space.
fn content_between(v: &Vec<char>, from: usize, to: usize) -> (yes: bool)
    requires
        from <= to <= v@.len(),
    ensures
        yes == has_content(v@.subrange(from as int, to as int)),
{
    let ghost line = v@.subrange(from as int, to as int);
    let mut i: usize = from;
    while i < to
        invariant
            from <= i <= to <= v@.len(),
            line == v@.subrange(from as int, to as int),
            forall|k: int| 0 <= k < i - from ==> is_space(#[trigger] line[k]),
        decreases to - i,
    {
        assert(line[i - from] == v@[i as int]);
        if !space(v[i]) {
            assert(!is_space(line[i - from]));
            return true;
        }
        i += 1;
    }
    false
}

/// The last line of the log that holds something besides white space.
pub fn latest(text: &str) -> (line: Option<String>)
    ensures
        match line {
            Some(l) => latest_line(text@) == Some(l@),
            None => latest_line(text@) is None,
        },
{
    let v = chars_of(text);
    let n: usize = v.len();
    let mut best: Option<(usize, usize)> = None;
    let mut start: usize = 0;
    let mut i: usize = 0;
    let ghost mut found: Option<Seq<char>> = None;
    while i < n
        invariant
            start <= i <= n,
            n == v@.len(),
            v@ == text@,
            match best {
                Some((a, b)) => a <= b <= n && found == Some(text@.subrange(a as int, b as int)),
                None => found is None,
            },
            last_line(text@, start as int, i as int, found) == latest_line(text@),
        decreases n - i,
    {
        if v[i] == '\n' {
            let mut end: usize = i;
            if end > start && v[end - 1] == '\r' {
                end -= 1;
            }
            proof {
                let whole = text@.subrange(start as int, i as int);
                assert(whole.len() > 0 ==> whole.last() == text@[i as int - 1]);
                assert(without_return(whole) =~= text@.subrange(start as int, end as int));
            }
            if content_between(&v, start, end) {
                best = Some((start, end));
                proof {
                    found = Some(text@.subrange(start as int, end as int));
                }
            }
            start = i + 1;
        }
        i += 1;
    }
    if content_between(&v, start, n) {
        best = Some((start, n));
    }
    match best {
        Some((a, b)) => Some(text.substring_char(a, b).to_owned()),
        None => None,
    }
}

/// A path with one more component.
pub open spec fn path_join(base: Seq<char>, name: Seq<char>) -> Seq<char> {
    if base.len() == 0 || base.last() == '/' {
        base + name
    } else {
        base + "/"@ + name
    }
}

/// A path with one more component.
pub fn push_path(base: &str, name: &str) -> (p: String)
    ensures
        p@ == path_join(base@, name@),
{
    let v = chars_of(base);
    if v.len() == 0 || v[v.len() - 1] == '/' {
        join2(base, name)
    } else {
        join3(base, "/", name)
    }
}

/// Where the log stands by default: under the state directory if there is one, else under the
/// home directory, else in the working directory.
pub open spec fn default_path_spec(state: Option<String>, home: Option<String>) -> Seq<char> {
    match (state, home) {
        (Some(s), _) => path_join(path_join(s@, "cirrus"@), "checkpoints.jsonl"@),
        (None, Some(h)) => path_join(path_join(h@, ".cirrus"@), "checkpoints.jsonl"@),
        (None, None) => ".cirrus_checkpoints.jsonl"@,
    }
}

/// Where the log stands by default, given the state directory and the home directory.
pub fn default_path(state: Option<String>, home: Option<String>) -> (p: String)
    ensures
        p@ == default_path_spec(state, home),
{
    match (state, home) {
        (Some(s), _) => push_path(&push_path(&s, "cirrus"), "checkpoints.jsonl"),
        (None, Some(h)) => push_path(&push_path(&h, ".cirrus"), "checkpoints.jsonl"),
        (None, None) => ".cirrus_checkpoints.jsonl".to_owned(),
    }
}

/// After a line with content is appended to the log, that line is the latest.
pub proof fn law_appended_line_is_latest(log: Seq<char>, line: Seq<char>)
    requires
        log.len() == 0 || log.last() == '\n',
        has_content(line),
        forall|i: int| 0 <= i < line.len() ==> line[i] != '\n' && line[i] != '\r',
    ensures
        latest_line(log + line + seq!['\n']) == Some(line),
{
    let text = log + line + seq!['\n'];
    let n = log.len() as int;
    let best = lemma_skip_log(text, n, 0, 0, None);
    lemma_skip_line(text, n, n, n + line.len(), best);
    let at = n + line.len();
    assert(text[at] == '\n');
    assert(text.subrange(n, at) =~= line);
    assert(without_return(line) == line);
    assert(text.subrange(at + 1, text.len() as int) =~= Seq::empty());
    assert(last_line(text, at + 1, at + 1, Some(line)) == Some(line));
}

/// Reading up to a line break leaves what follows.
proof fn lemma_skip_log(
    text: Seq<char>,
    n: int,
    start: int,
    at: int,
    best: Option<Seq<char>>,
) -> (b: Option<Seq<char>>)
    requires
        0 <= start <= at <= n <= text.len(),
        at == n ==> start == n,
        at < n ==> text[n - 1] == '\n',
    ensures
        last_line(text, start, at, best) == last_line(text, n, n, b),
    decreases n - at,
{
    if at == n {
        best
    } else if text[at] == '\n' {
        let line = without_return(text.subrange(start, at));
        let next = if has_content(line) {
            Some(line)
        } else {
            best
        };
        lemma_skip_log(text, n, at + 1, at + 1, next)
    } else {
        lemma_skip_log(text, n, start, at + 1, best)
    }
}

/// Reading the characters of one line changes nothing but the position.
proof fn lemma_skip_line(text: Seq<char>, start: int, at: int, end: int, best: Option<Seq<char>>)
    requires
        0 <= start <= at <= end < text.len(),
        forall|i: int| at <= i < end ==> text[i] != '\n',
    ensures
        last_line(text, start, at, best) == last_line(text, start, end, best),
    decreases end - at,
{
    if at < end {
        lemma_skip_line(text, start, at + 1, end, best);
    }
}

/// The line that is taken from a log is one of its lines, and after it stand only line breaks and
/// white space; nothing is taken only where the whole log is white space.
pub proof fn law_latest_line_is_the_last(text: Seq<char>)
    ensures
        match latest_line(text) {
            Some(l) => has_content(l) && exists|a: int|
                0 <= a && a + l.len() <= text.len() && #[trigger] text.subrange(a, a + l.len())
                    == l && (a > 0 ==> text[a - 1] == '\n') && (forall|i: int|
                    a + l.len() <= i < text.len() ==> is_space(#[trigger] text[i])),
            None => forall|i: int| 0 <= i < text.len() ==> is_space(#[trigger] text[i]),
        },
{
    lemma_last_line(text, 0, 0, None, 0);
}

/// Where the last line with content stands, as far as the text has been read.
proof fn lemma_last_line(
    text: Seq<char>,
    start: int,
    at: int,
    best: Option<Seq<char>>,
    from: int,
)
    requires
        0 <= start <= at <= text.len(),
        start > 0 ==> text[start - 1] == '\n',
        forall|i: int| start <= i < at ==> text[i] != '\n',
        match best {
            Some(l) => has_content(l) && 0 <= from && from + l.len() <= start && text.subrange(
                from,
                from + l.len(),
            ) == l && (from > 0 ==> text[from - 1] == '\n') && (forall|i: int|
                from + l.len() <= i < start ==> is_space(#[trigger] text[i])),
            None => forall|i: int| 0 <= i < start ==> is_space(#[trigger] text[i]),
        },
    ensures
        match last_line(text, start, at, best) {
            Some(l) => has_content(l) && exists|a: int|
                0 <= a && a + l.len() <= text.len() && #[trigger] text.subrange(a, a + l.len())
                    == l && (a > 0 ==> text[a - 1] == '\n') && (forall|i: int|
                    a + l.len() <= i < text.len() ==> is_space(#[trigger] text[i])),
            None => forall|i: int| 0 <= i < text.len() ==> is_space(#[trigger] text[i]),
        },
    decreases text.len() - at,
{
    if at >= text.len() {
        let line = text.subrange(start, text.len() as int);
        if has_content(line) {
            assert(text.subrange(start, start + line.len()) =~= line);
        } else {
            assert forall|i: int| start <= i < text.len() implies is_space(#[trigger] text[i]) by {
                assert(is_space(line[i - start]));
            }
            if let Some(l) = best {
                assert(text.subrange(from, from + l.len()) == l);
            }
        }
    } else if text[at] == '\n' {
        let whole = text.subrange(start, at);
        let line = without_return(whole);
        assert(is_space('\n') && is_space('\r'));
        if whole.len() > 0 {
            assert(whole.last() == text[at - 1]);
        }
        if has_content(line) {
            assert(text.subrange(start, start + line.len()) =~= line);
            lemma_last_line(text, at + 1, at + 1, Some(line), start);
        } else {
            assert forall|i: int| start <= i < at implies is_space(#[trigger] text[i]) by {
                assert(whole[i - start] == text[i]);
                if i - start < line.len() {
                    assert(line[i - start] == text[i]);
                }
            }
            lemma_last_line(text, at + 1, at + 1, best, from);
        }
    } else {
        lemma_last_line(text, start, at + 1, best, from);
    }
}

/// A record holds when the snapshot was taken and of which run, and which version wrote it.
pub proof fn law_record_holds_the_snapshot(
    snapshot: CheckpointSnapshot,
    version: &str,
    r: CheckpointRecord,
)
    requires
        call_ensures(record_of, (snapshot, version), r),
    ensures
        r == (CheckpointRecord {
            timestamp_ns: snapshot.timestamp_ns,
            run_uid: snapshot.run_uid,
            cirrus_version: r.cirrus_version,
        }),
        r.cirrus_version@ == version@,
{
}

/// A path with one more component begins with what it was made of and ends in the component,
/// with one slash between them unless the first part is empty or ends in one.
pub proof fn law_component_is_added(base: &str, name: &str, p: String)
    requires
        call_ensures(push_path, (base, name), p),
    ensures
        base@.is_prefix_of(p@),
        p@.skip(p@.len() - name@.len()) == name@,
        p@.len() == base@.len() + name@.len() + if base@.len() > 0 && base@.last() != '/' {
            1int
        } else {
            0int
        },
        base@.len() > 0 ==> p@[p@.len() - name@.len() - 1] == '/',
{
    reveal_strlit("/");
    assert(p@.skip(p@.len() - name@.len()) =~= name@);
}

/// The log stands below the state directory where there is one, else below the home directory,
/// and in either case under the same file name.
pub proof fn law_log_stands_below_its_directory(
    state: Option<String>,
    home: Option<String>,
    p: String,
)
    requires
        call_ensures(default_path, (state, home), p),
    ensures
        state matches Some(s) ==> s@.is_prefix_of(p@),
        state is None ==> (home matches Some(h) ==> h@.is_prefix_of(p@)),
        state is Some || home is Some ==> p@.skip(p@.len() - 17) == "checkpoints.jsonl"@,
        state is None && home is None ==> p@ == ".cirrus_checkpoints.jsonl"@,
{
    reveal_strlit("checkpoints.jsonl");
    if state is Some || home is Some {
        assert(p@.skip(p@.len() - 17) =~= "checkpoints.jsonl"@);
    }
}

} // verus!
