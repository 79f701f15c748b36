//! Handing a document out: to every sink in order, and after them to every callback.

use vstd::prelude::*;

use super::{EngineView, RunEngine};
use crate::error::CirrusError;

verus! {

/// Who gets a document next.
#[derive(Copy, Clone, Debug, PartialEq, Eq, Structural)]
pub enum FanNext {
    /// The sink with this place in the list of sinks.
    Sink(usize),
    /// The callback with this handle.
    Callback(u64),
    /// Nobody: everyone has it.
    Over,
}

/// The way of one document to the sinks and the callbacks.
#[derive(Debug)]
pub struct FanOut {
    /// The number of sinks.
    pub sinks: usize,
    /// How many of them have been given the document.
    pub given: usize,
    /// The callbacks, as they were subscribed when the last sink was through.
    pub callbacks: Option<Vec<u64>>,
    /// How many of them have been called.
    pub called: usize,
}

/// The handles of the subscribed callbacks, in order of subscription.
pub open spec fn subscribed(e: EngineView) -> Seq<u64> {
    e.subscribers.map_values(|s: (u64, u64)| s.1)
}

/// The callbacks that a document goes to: those that were fixed, or else those subscribed now.
pub open spec fn listeners(f: FanOut, e: EngineView) -> Seq<u64> {
    match f.callbacks {
        Some(c) => c@,
        None => subscribed(e),
    }
}

/// Who gets the document next, and what is left after that. What a sink answered plays no part.
pub open spec fn fanned(before: FanOut, e: EngineView, after: FanOut, next: FanNext) -> bool {
    if before.given < before.sinks {
        &&& next == FanNext::Sink(before.given)
        &&& after == FanOut { given: (before.given + 1) as usize, ..before }
    } else {
        let all = listeners(before, e);
        &&& after.callbacks matches Some(c) && c@ == all
        &&& after == FanOut { callbacks: after.callbacks, called: after.called, ..before }
        &&& if before.called < all.len() {
            next == FanNext::Callback(all[before.called as int]) && after.called == before.called
                + 1
        } else {
            next == FanNext::Over && after.called == before.called
        }
    }
}

impl FanOut {
    /// The way of a document that nobody has been given yet.
    pub fn new(sinks: usize) -> (f: Self)
        ensures
            f == (FanOut { sinks, given: 0, callbacks: None, called: 0 }),
    {
        FanOut { sinks, given: 0, callbacks: None, called: 0 }
    }

    /// Begins to hand the document out.
    pub fn begin(&mut self, re: &RunEngine) -> (next: FanNext)
        ensures
            fanned(*old(self), re@, *final(self), next),
    {
        self.handed_over(re, Ok(()))
    }

    /// Goes on once the one that was named last has the document. A sink that failed holds up
    /// nobody.
    pub fn handed_over(&mut self, re: &RunEngine, _answer: Result<(), CirrusError>) -> (next:
        FanNext)
        ensures
            fanned(*old(self), re@, *final(self), next),
    {
        if self.given < self.sinks {
            let sink: usize = self.given;
            self.given = sink + 1;
            return FanNext::Sink(sink);
        }
        let all = match self.callbacks.take() {
            Some(c) => c,
            None => re.callbacks(),
        };
        let next = if self.called < all.len() {
            let handle: u64 = all[self.called];
            self.called = self.called + 1;
            FanNext::Callback(handle)
        } else {
            FanNext::Over
        };
        self.callbacks = Some(all);
        next
    }
}

/// A document reaches every sink once, in the order of the sinks, then every callback that is
/// subscribed once the last sink has it, once each and in the order of subscription, and then
/// nobody, whatever the sinks answer and however the engine changes meanwhile.
pub proof fn law_everyone_gets_every_document(
    fs: Seq<FanOut>,
    es: Seq<EngineView>,
    nexts: Seq<FanNext>,
    sinks: usize,
    i: int,
)
    requires
        fs.len() == nexts.len() + 1,
        es.len() == nexts.len(),
        fs[0] == (FanOut { sinks, given: 0, callbacks: None, called: 0 }),
        forall|j: int|
            0 <= j < nexts.len() ==> fanned(fs[j], es[j], #[trigger] fs[j + 1], nexts[j]),
        0 <= i < nexts.len(),
    ensures
        i < sinks ==> nexts[i] == FanNext::Sink(i as usize),
        sinks <= i < sinks + subscribed(es[sinks as int]).len() ==> nexts[i] == FanNext::Callback(
            subscribed(es[sinks as int])[i - sinks],
        ),
        sinks + subscribed(es[sinks as int]).len() <= i ==> nexts[i] == FanNext::Over,
{
    lemma_course(fs, es, nexts, sinks, i);
    assert(fanned(fs[i], es[i], fs[i + 1], nexts[i]));
}

/// Where a document stands after `i` steps.
proof fn lemma_course(
    fs: Seq<FanOut>,
    es: Seq<EngineView>,
    nexts: Seq<FanNext>,
    sinks: usize,
    i: int,
)
    requires
        fs.len() == nexts.len() + 1,
        es.len() == nexts.len(),
        fs[0] == (FanOut { sinks, given: 0, callbacks: None, called: 0 }),
        forall|j: int|
            0 <= j < nexts.len() ==> fanned(fs[j], es[j], #[trigger] fs[j + 1], nexts[j]),
        0 <= i <= nexts.len(),
    ensures
        fs[i].sinks == sinks,
        i <= sinks ==> fs[i] == (FanOut { sinks, given: i as usize, callbacks: None, called: 0 }),
        i > sinks ==> {
            let all = subscribed(es[sinks as int]);
            &&& fs[i].given == sinks
            &&& fs[i].callbacks matches Some(c) && c@ == all
            &&& fs[i].called == if i - sinks < all.len() {
                i - sinks
            } else {
                all.len() as int
            }
        },
    decreases i,
{
    if i > 0 {
        lemma_course(fs, es, nexts, sinks, i - 1);
        assert(fanned(fs[i - 1], es[i - 1], fs[i - 1 + 1], nexts[i - 1]));
    }
}

} // verus!
