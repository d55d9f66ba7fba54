//! Isolation of the cues that a request fails on: a request that cannot be
//! answered is halved until single cues are left, and these are given up.
use vstd::prelude::*;
use vstd::slice::*;

use crate::contracts::{AppResult, ApplicationError};

use super::retry::{can_isolate, isolatable};
use super::texts::CueTexts;
use super::types::{BatchInput, CueInput};

verus! {

/// The state of the work on one request.
#[derive(Debug)]
pub struct Isolation {
    pending: Vec<BatchInput>,
    accepted: CueTexts,
    degraded: Vec<u32>,
}

/// The state as plain values.
pub struct IsolationView {
    /// Requests that are still to be sent; the last one is next.
    pub pending: Seq<BatchInput>,
    pub accepted: Map<u32, Seq<char>>,
    /// Cues that were given up.
    pub degraded: Seq<u32>,
}

impl View for Isolation {
    type V = IsolationView;

    closed spec fn view(&self) -> IsolationView {
        IsolationView {
            pending: self.pending@,
            accepted: self.accepted@,
            degraded: self.degraded@,
        }
    }
}

/// `part` is the cues from `from` to `to` of a request.
pub open spec fn is_part(batch: BatchInput, from: int, to: int, part: BatchInput) -> bool {
    &&& part.index == batch.index
    &&& part.output@ == batch.output@.subrange(from, to)
    &&& part.context@ == batch.context@
}

pub open spec fn input_ids(items: Seq<CueInput>) -> Seq<u32> {
    Seq::new(items.len(), |i: int| items[i].id)
}

/// A cue is among those of a request.
pub open spec fn in_batch(batch: BatchInput, id: u32) -> bool {
    exists|i: int| 0 <= i < batch.output@.len() && (#[trigger] batch.output@[i]).id == id
}

/// A cue is among those that are still to be sent.
pub open spec fn in_pending(pending: Seq<BatchInput>, id: u32) -> bool {
    exists|i: int| 0 <= i < pending.len() && in_batch(#[trigger] pending[i], id)
}

/// How much work is left at most: requests that can still be sent.
pub open spec fn work_left(pending: Seq<BatchInput>) -> int
    decreases pending.len(),
{
    if pending.len() == 0 {
        0
    } else {
        work_left(pending.drop_last()) + batch_work(pending.last())
    }
}

/// How many requests one request can become.
pub open spec fn batch_work(batch: BatchInput) -> int {
    if batch.output@.len() == 0 {
        1
    } else {
        2 * batch.output@.len() - 1
    }
}

impl IsolationView {
    /// A cue is accounted for: sent later, accepted or given up.
    pub open spec fn covers(self, id: u32) -> bool {
        ||| in_pending(self.pending, id)
        ||| self.accepted.contains_key(id)
        ||| self.degraded.contains(id)
    }

    /// The state after a reply that can be used.
    pub open spec fn with_reply(self, texts: Map<u32, Seq<char>>) -> IsolationView {
        IsolationView { accepted: self.accepted.union_prefer_right(texts), ..self }
    }

    /// `after` is the state after an error of the request `current`: halved, or
    /// given up where it has a single cue.
    pub open spec fn is_isolated(self, current: BatchInput, after: IsolationView) -> bool {
        let n = current.output@.len() as int;
        if n > 1 {
            &&& after.pending.len() == self.pending.len() + 2
            &&& after.pending.take(self.pending.len() as int) == self.pending
            &&& is_part(current, n / 2, n, after.pending[self.pending.len() as int])
            &&& is_part(current, 0, n / 2, after.pending.last())
            &&& after.accepted == self.accepted
            &&& after.degraded == self.degraded
        } else {
            after == IsolationView { degraded: self.degraded + input_ids(current.output@), ..self }
        }
    }
}

fn part_of(batch: &BatchInput, from: usize, to: usize) -> (part: BatchInput)
    requires
        from <= to <= batch.output@.len(),
    ensures
        is_part(*batch, from as int, to as int, part),
{
    let mut output: Vec<CueInput> = Vec::new();
    let mut i: usize = from;
    while i < to
        invariant
            from <= i <= to <= batch.output@.len(),
            output@ == batch.output@.subrange(from as int, i as int),
        decreases to - i,
    {
        output.push(batch.output[i].clone());
        i += 1;
        assert(output@ =~= batch.output@.subrange(from as int, i as int));
    }
    let mut context: Vec<CueInput> = Vec::new();
    let mut i: usize = 0;
    while i < batch.context.len()
        invariant
            i <= batch.context.len(),
            context@ == batch.context@.take(i as int),
        decreases batch.context.len() - i,
    {
        context.push(batch.context[i].clone());
        i += 1;
        assert(context@ =~= batch.context@.take(i as int));
    }
    assert(context@ =~= batch.context@);
    BatchInput { index: batch.index, output, context }
}

impl Isolation {
    pub fn new(batch: BatchInput) -> (isolation: Self)
        ensures
            isolation@ == (IsolationView {
                pending: seq![batch],
                accepted: Map::empty(),
                degraded: seq![],
            }),
            isolation.in_order(),
    {
        let mut pending: Vec<BatchInput> = Vec::new();
        pending.push(batch);
        let isolation = Isolation { pending, accepted: CueTexts::new(), degraded: Vec::new() };
        assert(isolation@.pending =~= seq![batch]);
        assert(isolation@.degraded =~= Seq::<u32>::empty());
        isolation
    }

    /// The accepted texts are visited in the order of their identifiers.
    pub closed spec fn in_order(&self) -> bool {
        self.accepted.in_order()
    }

    /// The next request to send.
    pub fn next(&mut self) -> (batch: Option<BatchInput>)
        ensures
            match batch {
                None => old(self)@.pending.len() == 0 && final(self)@ == old(self)@,
                Some(batch) => old(self)@.pending.len() > 0 && batch == old(self)@.pending.last()
                    && final(self)@ == (IsolationView {
                    pending: old(self)@.pending.drop_last(),
                    ..old(self)@
                }),
            },
            final(self).in_order() == old(self).in_order(),
    {
        self.pending.pop()
    }

    /// Take in the texts of a reply.
    pub fn accept(&mut self, texts: &CueTexts)
        requires
            texts.in_order(),
        ensures
            final(self)@ == old(self)@.with_reply(texts@),
            old(self).in_order() ==> final(self).in_order(),
    {
        self.accepted.extend(texts);
    }

    /// Meet an error of the request `current`. Errors that do not depend on the
    /// cues are passed on.
    pub fn reject(&mut self, current: BatchInput, error: ApplicationError) -> (result: AppResult<()>)
        ensures
            match result {
                Ok(_) => isolatable(error@) && old(self)@.is_isolated(current, final(self)@),
                Err(e) => !isolatable(error@) && e == error && final(self)@ == old(self)@,
            },
            final(self).in_order() == old(self).in_order(),
    {
        if !can_isolate(&error) {
            return Err(error);
        }
        let n: usize = current.output.len();
        if n > 1 {
            let middle: usize = n / 2;
            self.pending.push(part_of(&current, middle, n));
            self.pending.push(part_of(&current, 0, middle));
            assert(self@.pending.take(old(self)@.pending.len() as int) =~= old(self)@.pending);
        } else {
            let mut i: usize = 0;
            while i < n
                invariant
                    i <= n == current.output@.len(),
                    self.pending@ == old(self).pending@,
                    self.accepted == old(self).accepted,
                    self.degraded@ == old(self).degraded@ + input_ids(current.output@).take(
                        i as int,
                    ),
                decreases n - i,
            {
                self.degraded.push(current.output[i].id);
                i += 1;
                assert(self.degraded@ =~= old(self).degraded@ + input_ids(current.output@).take(
                    i as int,
                ));
            }
            assert(input_ids(current.output@).take(n as int) =~= input_ids(current.output@));
        }
        Ok(())
    }

    /// The accepted texts and the cues that were given up, once nothing is left
    /// to send.
    pub fn finish(self) -> (outcome: (CueTexts, Vec<u32>))
        ensures
            outcome.0@ == self@.accepted,
            outcome.1@ == self@.degraded,
            self.in_order() ==> outcome.0.in_order(),
    {
        (self.accepted, self.degraded)
    }
}

/// A reply with a text for every cue of its request loses no cue: each one that
/// was accounted for when the request was taken still is.
pub proof fn law_replies_lose_no_cue(
    state: IsolationView,
    current: BatchInput,
    texts: Map<u32, Seq<char>>,
    id: u32,
)
    requires
        state.covers(id) || in_batch(current, id),
        forall|i: int|
            0 <= i < current.output@.len() ==> texts.contains_key((#[trigger] current.output@[i]).id),
    ensures
        state.with_reply(texts).covers(id),
{
    if in_batch(current, id) {
        let i = choose|i: int|
            0 <= i < current.output@.len() && (#[trigger] current.output@[i]).id == id;
        assert(texts.contains_key(current.output@[i].id));
    }
}

/// Halving or giving up a request loses no cue.
pub proof fn law_isolation_loses_no_cue(
    state: IsolationView,
    current: BatchInput,
    after: IsolationView,
    id: u32,
)
    requires
        state.covers(id) || in_batch(current, id),
        state.is_isolated(current, after),
    ensures
        after.covers(id),
{
    let n = current.output@.len() as int;
    let m = state.pending.len() as int;
    if n > 1 {
        if in_pending(state.pending, id) {
            let i = choose|i: int| 0 <= i < state.pending.len() && in_batch(
                #[trigger] state.pending[i],
                id,
            );
            assert(after.pending.take(m)[i] == after.pending[i]);
            assert(in_batch(after.pending[i], id));
        }
        if in_batch(current, id) {
            let i = choose|i: int| 0 <= i < n && (#[trigger] current.output@[i]).id == id;
            if i < n / 2 {
                let part = after.pending[m + 1];
                assert(part.output@[i].id == id);
                assert(in_batch(after.pending[m + 1], id));
            } else {
                let part = after.pending[m];
                assert(part.output@[i - n / 2].id == id);
                assert(in_batch(after.pending[m], id));
            }
        }
    } else {
        if state.degraded.contains(id) {
            let i = choose|i: int| 0 <= i < state.degraded.len() && state.degraded[i] == id;
            assert(after.degraded[i] == id);
        }
        if in_batch(current, id) {
            let i = choose|i: int| 0 <= i < n && (#[trigger] current.output@[i]).id == id;
            assert(input_ids(current.output@)[i] == id);
            assert(after.degraded[state.degraded.len() + i] == id);
        }
    }
}

/// Once nothing is left to send, every cue that was accounted for has been
/// accepted or given up.
pub proof fn law_no_cue_is_left(state: IsolationView, id: u32)
    requires
        state.pending.len() == 0,
        state.covers(id),
    ensures
        state.accepted.contains_key(id) || state.degraded.contains(id),
{
}

/// Every request that is sent leaves less work, so isolation comes to an end.
pub proof fn law_isolation_comes_to_an_end(
    state: IsolationView,
    current: BatchInput,
    after: IsolationView,
)
    requires
        state.is_isolated(current, after),
    ensures
        work_left(after.pending) < work_left(state.pending.push(current)),
        work_left(state.pending) < work_left(state.pending.push(current)),
{
    let n = current.output@.len() as int;
    let m = state.pending.len() as int;
    assert(state.pending.push(current).drop_last() =~= state.pending);
    if n > 1 {
        let once = after.pending.drop_last();
        assert(once.drop_last() =~= after.pending.take(m));
        assert(once.last() == after.pending[m]);
        assert(work_left(after.pending) == work_left(once) + batch_work(after.pending.last()));
        assert(work_left(once) == work_left(state.pending) + batch_work(after.pending[m]));
    }
}

/// A request that could not be used is sent again in two halves: the first half
/// of its cues next, the second behind it, with the same context. A single cue
/// is given up. What was accepted stays.
pub proof fn law_requests_are_halved(
    state: IsolationView,
    current: BatchInput,
    after: IsolationView,
    i: int,
)
    requires
        state.is_isolated(current, after),
        0 <= i < current.output@.len(),
    ensures
        after.accepted == state.accepted,
        current.output@.len() == 1 ==> after.pending == state.pending && after.degraded
            == state.degraded.push(current.output@[0].id),
        current.output@.len() > 1 ==> {
            let half = current.output@.len() as int / 2;
            let first = after.pending.last();
            let second = after.pending[after.pending.len() - 2];
            &&& after.pending.len() == state.pending.len() + 2
            &&& after.degraded == state.degraded
            &&& first.output@.len() == half && second.output@.len() == current.output@.len() - half
            &&& i < half ==> first.output@[i] == current.output@[i]
            &&& i >= half ==> second.output@[i - half] == current.output@[i]
            &&& first.context@ == current.context@ && second.context@ == current.context@
            &&& first.index == current.index && second.index == current.index
        },
{
    if current.output@.len() == 1 {
        assert(input_ids(current.output@) =~= seq![current.output@[0].id]);
        assert(state.degraded + input_ids(current.output@) =~= state.degraded.push(
            current.output@[0].id,
        ));
    }
}

/// An accepted reply adds its texts, the later in place of the earlier.
pub proof fn law_replies_are_added(state: IsolationView, texts: Map<u32, Seq<char>>, id: u32)
    ensures
        texts.contains_key(id) ==> state.with_reply(texts).accepted.contains_key(id)
            && state.with_reply(texts).accepted[id] == texts[id],
        !texts.contains_key(id) && state.accepted.contains_key(id) ==> state.with_reply(
            texts,
        ).accepted.contains_key(id) && state.with_reply(texts).accepted[id] == state.accepted[id],
        !texts.contains_key(id) && !state.accepted.contains_key(id) ==> !state.with_reply(
            texts,
        ).accepted.contains_key(id),
        state.with_reply(texts).pending == state.pending && state.with_reply(texts).degraded
            == state.degraded,
{
}

} // verus!
