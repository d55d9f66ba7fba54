//! A stage on its way through its requests: results that were stored before are
//! taken over, the others are asked for one after the other.
use vstd::prelude::*;

use crate::contracts::{AppResult, ApplicationError, ApplicationErrorView};

use super::texts::CueTexts;
use super::types::BatchInput;

verus! {

/// The state of a stage between two requests.
#[derive(Debug)]
pub struct BatchRun {
    batches: Vec<BatchInput>,
    at: usize,
    texts: CueTexts,
    degraded: Vec<u32>,
}

/// The state as plain values.
pub struct BatchRunView {
    pub batches: Seq<BatchInput>,
    /// How many requests are done with.
    pub at: int,
    pub texts: Map<u32, Seq<char>>,
    pub degraded: Seq<u32>,
}

impl View for BatchRun {
    type V = BatchRunView;

    closed spec fn view(&self) -> BatchRunView {
        BatchRunView {
            batches: self.batches@,
            at: self.at as int,
            texts: self.texts@,
            degraded: self.degraded@,
        }
    }
}

impl BatchRunView {
    pub open spec fn done(self) -> bool {
        self.at >= self.batches.len()
    }

    /// The state after the next request, with its texts and the cues that were
    /// given up.
    pub open spec fn advanced(self, texts: Map<u32, Seq<char>>, degraded: Seq<u32>) -> BatchRunView {
        BatchRunView {
            at: self.at + 1,
            texts: self.texts.union_prefer_right(texts),
            degraded: self.degraded + degraded,
            ..self
        }
    }
}

impl BatchRun {
    pub fn new(batches: Vec<BatchInput>) -> (run: Self)
        ensures
            run@ == (BatchRunView {
                batches: batches@,
                at: 0,
                texts: Map::empty(),
                degraded: seq![],
            }),
            run.sound(),
    {
        let run = BatchRun { batches, at: 0, texts: CueTexts::new(), degraded: Vec::new() };
        assert(run@.degraded =~= seq![]);
        run
    }

    /// The texts are visited in the order of their identifiers, and no request
    /// behind the last one is under way.
    pub closed spec fn sound(&self) -> bool {
        self.texts.in_order() && self.at <= self.batches@.len()
    }

    /// The next request, if one is left. A cancelled stage goes no further.
    pub fn next(&self, cancelled: bool) -> (result: AppResult<Option<&BatchInput>>)
        requires
            self.sound(),
        ensures
            match result {
                Ok(None) => self@.done(),
                Ok(Some(batch)) => !self@.done() && !cancelled && *batch
                    == self@.batches[self@.at],
                Err(error) => !self@.done() && cancelled && error@
                    == ApplicationErrorView::Cancelled,
            },
    {
        if self.at >= self.batches.len() {
            return Ok(None);
        }
        if cancelled {
            return Err(ApplicationError::Cancelled);
        }
        Ok(Some(&self.batches[self.at]))
    }

    /// The texts that have been gathered so far.
    pub fn texts(&self) -> (texts: &CueTexts)
        requires
            self.sound(),
        ensures
            texts@ == self@.texts,
            texts.in_order(),
    {
        &self.texts
    }

    /// Take over the outcome of the next request, whether it was stored before
    /// or has just been asked for.
    pub fn advance(&mut self, texts: &CueTexts, degraded: &Vec<u32>)
        requires
            old(self).sound(),
            !old(self)@.done(),
            texts.in_order(),
        ensures
            final(self)@ == old(self)@.advanced(texts@, degraded@),
            final(self).sound(),
    {
        self.texts.extend(texts);
        let ghost before = self.degraded@;
        let mut i: usize = 0;
        while i < degraded.len()
            invariant
                i <= degraded.len(),
                self.batches == old(self).batches,
                self.at == old(self).at,
                self.texts.in_order(),
                self.texts@ == old(self).texts@.union_prefer_right(texts@),
                self.degraded@ == before + degraded@.take(i as int),
            decreases degraded.len() - i,
        {
            self.degraded.push(degraded[i]);
            i += 1;
            assert(self.degraded@ =~= before + degraded@.take(i as int));
        }
        assert(degraded@.take(i as int) =~= degraded@);
        assert(self.at < self.batches.len());
        self.at = self.at + 1;
    }

    /// All texts, and the cues that were given up.
    pub fn finish(self) -> (outcome: (CueTexts, Vec<u32>))
        requires
            self.sound(),
        ensures
            outcome.0@ == self@.texts,
            outcome.0.in_order(),
            outcome.1@ == self@.degraded,
    {
        (self.texts, self.degraded)
    }
}

/// Texts of a request that is done with are never lost to a later one for other
/// cues.
pub proof fn law_texts_are_kept(
    run: BatchRunView,
    texts: Map<u32, Seq<char>>,
    degraded: Seq<u32>,
    id: u32,
)
    requires
        run.texts.contains_key(id),
        !texts.contains_key(id),
    ensures
        run.advanced(texts, degraded).texts.contains_key(id),
        run.advanced(texts, degraded).texts[id] == run.texts[id],
{
}

/// Every request that is done with brings the stage nearer to its end.
pub proof fn law_runs_come_to_an_end(
    run: BatchRunView,
    texts: Map<u32, Seq<char>>,
    degraded: Seq<u32>,
)
    requires
        !run.done(),
    ensures
        run.batches.len() - run.advanced(texts, degraded).at < run.batches.len() - run.at,
        0 <= run.batches.len() - run.advanced(texts, degraded).at,
{
}

/// After a request the run goes on with the next one, with the texts that were
/// won and the cues that were given up added.
pub proof fn law_runs_go_on_with_the_next(
    run: BatchRunView,
    texts: Map<u32, Seq<char>>,
    degraded: Seq<u32>,
    id: u32,
)
    ensures
        ({
            let after = run.advanced(texts, degraded);
            &&& after.at == run.at + 1 && after.batches == run.batches
            &&& after.degraded == run.degraded + degraded
            &&& texts.contains_key(id) ==> after.texts.contains_key(id) && after.texts[id]
                == texts[id]
            &&& !texts.contains_key(id) ==> (after.texts.contains_key(id) == run.texts.contains_key(
                id,
            )) && (run.texts.contains_key(id) ==> after.texts[id] == run.texts[id])
        }),
        run.done() <==> run.at >= run.batches.len(),
{
}

} // verus!
