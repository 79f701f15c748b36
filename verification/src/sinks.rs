//! Where documents go.

use std::sync::Arc;

use vstd::prelude::*;
use vstd::string::*;

use crate::documents::{document_name, document_name_of, Document};
use crate::error::CirrusError;
use crate::share::share;
use crate::text::join2;

verus! {

/// What a sink has taken after it was given a document: that document too, if it took it.
pub open spec fn taken_on(
    before: Seq<Arc<Document>>,
    after: Seq<Arc<Document>>,
    doc: Arc<Document>,
    ok: bool,
) -> bool {
    after == if ok {
        before.push(doc)
    } else {
        before
    }
}

/// Takes documents. An error does not end the run.
pub trait DocumentSink: Sized {
    /// The documents taken so far.
    spec fn taken(&self) -> Seq<Arc<Document>>;

    /// Takes one document.
    fn dispatch(&mut self, doc: &Arc<Document>) -> (r: Result<(), CirrusError>)
        ensures
            taken_on(old(self).taken(), final(self).taken(), *doc, r is Ok),
    ;
}

/// Keeps every document.
#[derive(Debug)]
pub struct CapturingSink {
    docs: Vec<Arc<Document>>,
}

impl CapturingSink {
    /// A sink that has taken nothing.
    pub fn new() -> (s: Self)
        ensures
            s.taken() == Seq::<Arc<Document>>::empty(),
    {
        CapturingSink { docs: Vec::new() }
    }

    /// The documents taken so far.
    pub fn snapshot(&self) -> (docs: Vec<Arc<Document>>)
        ensures
            docs@ == self.taken(),
    {
        let mut docs: Vec<Arc<Document>> = Vec::new();
        let mut i: usize = 0;
        while i < self.docs.len()
            invariant
                i <= self.docs.len(),
                docs@ == self.docs@.take(i as int),
            decreases self.docs.len() - i,
        {
            docs.push(share(&self.docs[i]));
            i += 1;
            assert(docs@ =~= self.docs@.take(i as int));
        }
        assert(self.docs@.take(self.docs@.len() as int) =~= self.docs@);
        docs
    }
}

impl Default for CapturingSink {
    fn default() -> (s: Self)
        ensures
            s.taken() == Seq::<Arc<Document>>::empty(),
    {
        CapturingSink::new()
    }
}

impl DocumentSink for CapturingSink {
    closed spec fn taken(&self) -> Seq<Arc<Document>> {
        self.docs@
    }

    fn dispatch(&mut self, doc: &Arc<Document>) -> (r: Result<(), CirrusError>)
        ensures
            r is Ok,
    {
        self.docs.push(share(doc));
        Ok(())
    }
}

/// Traces the names of documents.
#[derive(Copy, Clone, Debug)]
pub struct StderrTraceSink;

impl StderrTraceSink {
    /// The line that is traced for a document.
    pub fn trace_line(&self, doc: &Document) -> (s: String)
        ensures
            s@ == "[cirrus] "@ + document_name_of(*doc),
    {
        join2("[cirrus] ", document_name(doc))
    }
}

/// The line that a file of documents gets for one whose JSON text is `text`.
pub fn jsonl_line(text: &str) -> (s: String)
    ensures
        s@ == text@ + "\n"@,
{
    join2(text, "\n")
}

/// The error of a file of documents; `open` tells opening from writing.
pub fn jsonl_error(open: bool, e: &str) -> (x: CirrusError)
    ensures
        x matches CirrusError::Backend(s) && s@ == (if open {
            "jsonl open: "@
        } else {
            "jsonl write: "@
        }) + e@,
{
    CirrusError::Backend(
        if open {
            join2("jsonl open: ", e)
        } else {
            join2("jsonl write: ", e)
        },
    )
}

/// A sink that keeps documents keeps all that it is given, in the order given: of two documents
/// that it takes the second stands last, the first just before it, and what was there before is
/// still there.
pub proof fn law_documents_are_kept_in_order(
    s0: Seq<Arc<Document>>,
    s1: Seq<Arc<Document>>,
    s2: Seq<Arc<Document>>,
    a: Arc<Document>,
    b: Arc<Document>,
)
    requires
        taken_on(s0, s1, a, true),
        taken_on(s1, s2, b, true),
    ensures
        s2.len() == s0.len() + 2,
        s2.last() == b,
        s2[s0.len() as int] == a,
        s0.is_prefix_of(s2),
{
}

/// A document that a sink refuses leaves what it has taken as it was.
pub proof fn law_refused_document_leaves_no_trace(
    s0: Seq<Arc<Document>>,
    s1: Seq<Arc<Document>>,
    a: Arc<Document>,
)
    requires
        taken_on(s0, s1, a, false),
    ensures
        s1 == s0,
{
}

/// A line of a file of documents is the text of the document and ends the line; the trace of a
/// document ends in its name.
pub proof fn law_lines_hold_their_documents(text: &str, line: String, doc: &Document, t: String)
    requires
        call_ensures(jsonl_line, (text,), line),
        call_ensures(StderrTraceSink::trace_line, (&StderrTraceSink, doc), t),
    ensures
        line@.last() == '\n',
        line@.drop_last() == text@,
        exists|head: Seq<char>| t@ == #[trigger] (head + document_name_of(*doc)),
{
    reveal_strlit("\n");
    assert(line@.drop_last() =~= text@);
    assert(t@ == "[cirrus] "@ + document_name_of(*doc));
}

} // verus!
