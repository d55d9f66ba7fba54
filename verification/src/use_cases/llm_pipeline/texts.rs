//! Texts by cue identifier.
use vstd::prelude::*;
use vstd::string::*;

verus! {

/// One text per cue, in the order of the cue identifiers.
#[derive(Debug, PartialEq, Eq)]
pub struct CueTexts {
    entries: Vec<(u32, String)>,
}

/// The position of the first entry of `id`, from `from` on.
pub open spec fn text_position(entries: Seq<(u32, String)>, id: u32, from: int) -> Option<int>
    decreases entries.len() - from,
{
    if from < 0 || from >= entries.len() {
        None
    } else if entries[from].0 == id {
        Some(from)
    } else {
        text_position(entries, id, from + 1)
    }
}

proof fn lemma_text_position(entries: Seq<(u32, String)>, id: u32, from: int)
    requires
        0 <= from,
    ensures
        match text_position(entries, id, from) {
            Some(p) => from <= p < entries.len() && entries[p].0 == id && forall|k: int|
                from <= k < p ==> (#[trigger] entries[k]).0 != id,
            None => forall|k: int| from <= k < entries.len() ==> (#[trigger] entries[k]).0 != id,
        },
    decreases entries.len() - from,
{
    if from < entries.len() {
        lemma_text_position(entries, id, from + 1);
    }
}

proof fn lemma_text_position_is(entries: Seq<(u32, String)>, id: u32, p: int)
    requires
        0 <= p < entries.len(),
        entries[p].0 == id,
        forall|k: int| 0 <= k < p ==> (#[trigger] entries[k]).0 != id,
    ensures
        text_position(entries, id, 0) == Some(p),
{
    lemma_text_position(entries, id, 0);
}

impl View for CueTexts {
    type V = Map<u32, Seq<char>>;

    closed spec fn view(&self) -> Map<u32, Seq<char>> {
        Map::new(
            |id: u32| text_position(self.entries@, id, 0) is Some,
            |id: u32| self.entries@[text_position(self.entries@, id, 0)->0].1@,
        )
    }
}

impl CueTexts {
    /// The identifiers in the order in which they are visited.
    pub closed spec fn order(&self) -> Seq<u32> {
        Seq::new(self.entries@.len(), |i: int| self.entries@[i].0)
    }

    /// The identifiers are visited from the smallest to the largest, each once.
    pub open spec fn in_order(&self) -> bool {
        forall|i: int, j: int|
            0 <= i < j < self.order().len() ==> (#[trigger] self.order()[i]) < (
            #[trigger] self.order()[j])
    }

    pub fn new() -> (texts: Self)
        ensures
            texts@ == Map::<u32, Seq<char>>::empty(),
            texts.in_order(),
            texts.order() == Seq::<u32>::empty(),
    {
        let texts = CueTexts { entries: Vec::new() };
        assert(texts@ =~= Map::<u32, Seq<char>>::empty());
        assert(texts.order() =~= Seq::<u32>::empty());
        texts
    }

    pub fn len(&self) -> (len: usize)
        ensures
            len == self.order().len(),
    {
        self.entries.len()
    }

    /// The identifier and the text that are visited as number `i`.
    pub fn entry(&self, i: usize) -> (entry: (u32, &str))
        requires
            i < self.order().len(),
        ensures
            entry.0 == self.order()[i as int],
            self.in_order() ==> self@.contains_key(entry.0) && self@[entry.0] == entry.1@,
    {
        proof {
            if self.in_order() {
                assert forall|k: int| 0 <= k < i implies (#[trigger] self.entries@[k]).0
                    != self.entries@[i as int].0 by {
                    assert(self.order()[k] < self.order()[i as int]);
                }
                lemma_text_position_is(self.entries@, self.entries@[i as int].0, i as int);
            }
        }
        (self.entries[i].0, self.entries[i].1.as_str())
    }

    fn find(&self, id: u32) -> (found: Option<usize>)
        ensures
            match found {
                Some(p) => p < self.entries@.len() && text_position(self.entries@, id, 0) == Some(
                    p as int,
                ),
                None => text_position(self.entries@, id, 0) is None,
            },
    {
        let mut i: usize = 0;
        while i < self.entries.len()
            invariant
                i <= self.entries.len(),
                text_position(self.entries@, id, 0) == text_position(self.entries@, id, i as int),
            decreases self.entries.len() - i,
        {
            if self.entries[i].0 == id {
                return Some(i);
            }
            i += 1;
        }
        None
    }

    pub fn contains(&self, id: u32) -> (answer: bool)
        ensures
            answer == self@.contains_key(id),
    {
        self.find(id).is_some()
    }

    pub fn get(&self, id: u32) -> (text: Option<&str>)
        ensures
            match text {
                Some(text) => self@.contains_key(id) && self@[id] == text@,
                None => !self@.contains_key(id),
            },
    {
        match self.find(id) {
            Some(p) => Some(self.entries[p].1.as_str()),
            None => None,
        }
    }

    /// Put a text under an identifier, in place of one that stood there.
    pub fn insert(&mut self, id: u32, text: &str)
        ensures
            final(self)@ == old(self)@.insert(id, text@),
            old(self).in_order() ==> final(self).in_order(),
    {
        let ghost before = self.entries@;
        let ghost ordered = self.in_order();
        proof {
            lemma_text_position(before, id, 0);
        }
        match self.find(id) {
            Some(p) => {
                self.entries.set(p, (id, text.to_owned()));
                proof {
                    assert(self.order() =~= old(self).order());
                    assert forall|k: u32| #[trigger] text_position(self.entries@, k, 0)
                        == text_position(before, k, 0) by {
                        lemma_text_position(before, k, 0);
                        lemma_text_position(self.entries@, k, 0);
                        if let Some(q) = text_position(before, k, 0) {
                            assert(self.entries@[q].0 == k);
                        }
                        if let Some(q) = text_position(self.entries@, k, 0) {
                            assert(before[q].0 == k);
                        }
                    }
                    assert forall|k: u32| self@.contains_key(k) implies #[trigger] self@[k] == old(
                        self,
                    )@.insert(id, text@)[k] by {
                        lemma_text_position(before, k, 0);
                    }
                    assert(self@ =~= old(self)@.insert(id, text@));
                }
            },
            None => {
                let mut i: usize = 0;
                while i < self.entries.len() && self.entries[i].0 < id
                    invariant
                        i <= self.entries.len(),
                        self.entries@ == before,
                        forall|k: int| 0 <= k < i ==> (#[trigger] self.entries@[k]).0 < id,
                    decreases self.entries.len() - i,
                {
                    i += 1;
                }
                self.entries.insert(i, (id, text.to_owned()));
                proof {
                    let after = self.entries@;
                    assert forall|k: int| 0 <= k < before.len() implies #[trigger] before[k] == after[if k
                        < i {
                        k
                    } else {
                        k + 1
                    }] by {}
                    lemma_text_position_is(after, id, i as int);
                    assert forall|k: u32| k != id implies {
                        &&& (#[trigger] text_position(after, k, 0)) is Some <==> text_position(
                            before,
                            k,
                            0,
                        ) is Some
                        &&& text_position(before, k, 0) is Some ==> after[text_position(
                            after,
                            k,
                            0,
                        )->0] == before[text_position(before, k, 0)->0]
                    } by {
                        lemma_text_position(before, k, 0);
                        lemma_text_position(after, k, 0);
                        if let Some(q) = text_position(before, k, 0) {
                            let r: int = if q < i {
                                q
                            } else {
                                q + 1
                            };
                            assert(after[r].0 == k);
                            assert forall|m: int| 0 <= m < r implies (#[trigger] after[m]).0 != k by {
                                if m < i {
                                    assert(before[m] == after[m]);
                                } else if m > i {
                                    assert(before[m - 1] == after[m]);
                                }
                            }
                            lemma_text_position_is(after, k, r);
                        }
                        if let Some(r) = text_position(after, k, 0) {
                            let q: int = if r < i {
                                r
                            } else {
                                r - 1
                            };
                            assert(before[q].0 == k);
                        }
                    }
                    assert(self@ =~= old(self)@.insert(id, text@));
                    if ordered {
                        assert forall|a: int, b: int| 0 <= a < b < self.order().len() implies (
                        #[trigger] self.order()[a]) < (#[trigger] self.order()[b]) by {
                            let x: int = if a < i {
                                a
                            } else {
                                a - 1
                            };
                            let y: int = if b < i {
                                b
                            } else {
                                b - 1
                            };
                            if a == i {
                                assert(i < before.len());
                                assert(before[i as int].0 >= id && before[i as int].0 != id);
                                if y > i {
                                    assert(old(self).order()[i as int] < old(self).order()[y]);
                                }
                            } else if b == i {
                                assert(before[x].0 < id);
                            } else {
                                assert(old(self).order()[x] < old(self).order()[y]);
                            }
                        }
                    }
                }
            },
        }
    }

    /// Put all texts of `other` in, in place of those under the same identifiers.
    pub fn extend(&mut self, other: &CueTexts)
        requires
            other.in_order(),
        ensures
            final(self)@ == old(self)@.union_prefer_right(other@),
            old(self).in_order() ==> final(self).in_order(),
    {
        let mut i: usize = 0;
        let ghost start = self@;
        assert(start.union_prefer_right(taken(other, 0)) =~= start) by {
            assert(taken(other, 0).dom() =~= Set::<u32>::empty());
        }
        while i < other.entries.len()
            invariant
                i <= other.entries.len(),
                other.in_order(),
                start == old(self)@,
                self@ == start.union_prefer_right(taken(other, i as int)),
                old(self).in_order() ==> self.in_order(),
            decreases other.entries.len() - i,
        {
            let (id, text) = other.entry(i);
            self.insert(id, text);
            proof {
                assert(taken(other, i + 1) =~= taken(other, i as int).insert(id, text@)) by {
                    assert forall|k: u32| #[trigger] taken(other, i + 1).contains_key(k)
                        <==> taken(other, i as int).insert(id, text@).contains_key(k) by {
                        if taken(other, i + 1).contains_key(k) && k != id {
                            let n = choose|n: int|
                                0 <= n < i + 1 && other.order()[n] == k && #[trigger] in_range(n);
                            assert(in_range(n));
                            assert(n < i);
                        }
                        if taken(other, i as int).contains_key(k) {
                            let n = choose|n: int|
                                0 <= n < i && other.order()[n] == k && #[trigger] in_range(n);
                            assert(in_range(n));
                        }
                        if k == id {
                            assert(in_range(i as int));
                        }
                    }
                }
                assert(start.union_prefer_right(taken(other, i + 1))
                    =~= start.union_prefer_right(taken(other, i as int)).insert(id, text@));
            }
            i += 1;
        }
        proof {
            assert(taken(other, i as int) =~= other@) by {
                assert forall|k: u32| #[trigger] taken(other, i as int).contains_key(k)
                    <==> other@.contains_key(k) by {
                    lemma_text_position(other.entries@, k, 0);
                    if taken(other, i as int).contains_key(k) {
                        let n = choose|n: int|
                            0 <= n < i && other.order()[n] == k && #[trigger] in_range(n);
                        assert(other.entries@[n].0 == k);
                    }
                    if other@.contains_key(k) {
                        let n = text_position(other.entries@, k, 0)->0;
                        assert(other.order()[n] == k && in_range(n));
                    }
                }
            }
        }
    }
}

spec fn in_range(n: int) -> bool {
    true
}

/// The first `n` texts in the order of their visit.
spec fn taken(texts: &CueTexts, n: int) -> Map<u32, Seq<char>> {
    Map::new(
        |id: u32| exists|k: int| 0 <= k < n && texts.order()[k] == id && #[trigger] in_range(k),
        |id: u32| texts@[id],
    )
}

impl Clone for CueTexts {
    fn clone(&self) -> (copy: Self)
        ensures
            copy@ == self@,
            copy.order() == self.order(),
    {
        let mut entries: Vec<(u32, String)> = Vec::new();
        let mut i: usize = 0;
        while i < self.entries.len()
            invariant
                i <= self.entries.len(),
                entries@ == self.entries@.take(i as int),
            decreases self.entries.len() - i,
        {
            entries.push((self.entries[i].0, self.entries[i].1.clone()));
            i += 1;
            assert(entries@ =~= self.entries@.take(i as int));
        }
        assert(entries@ =~= self.entries@);
        CueTexts { entries }
    }
}

/// A key is under way exactly when it is visited.
pub proof fn law_every_key_is_visited(texts: CueTexts, id: u32)
    ensures
        texts@.contains_key(id) <==> texts.order().contains(id),
{
    lemma_text_position(texts.entries@, id, 0);
    if texts.order().contains(id) {
        let k = choose|k: int| 0 <= k < texts.order().len() && texts.order()[k] == id;
        assert(texts.entries@[k].0 == id);
    }
    if let Some(p) = text_position(texts.entries@, id, 0) {
        assert(texts.order()[p] == id);
    }
}

} // verus!
