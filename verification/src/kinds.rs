//! Which item kinds to fetch from which source: a small map keyed by source.
use vstd::prelude::*;

use crate::item::{copy_kinds, Kind, SourceId};

verus! {

/// The kinds of a list, as texts.
pub open spec fn kind_names(kinds: Seq<Kind>) -> Seq<Seq<char>> {
    kinds.map_values(|k: Kind| k@)
}

/// Item kinds per source. Each source appears at most once.
#[derive(Debug, Default)]
pub struct KindTable {
    entries: Vec<(SourceId, Vec<Kind>)>,
}

impl KindTable {
    /// No source appears twice.
    pub closed spec fn wf(&self) -> bool {
        forall|i: int, j: int|
            0 <= i < j < self.entries@.len() ==> (#[trigger] self.entries@[i]).0@ != (
            #[trigger] self.entries@[j]).0@
    }

    /// The kinds configured for each source.
    pub closed spec fn view(&self) -> Map<Seq<char>, Seq<Seq<char>>> {
        Map::new(
            |k: Seq<char>| exists|i: int| 0 <= i < self.entries@.len() && (#[trigger] self.entries@[i]).0@ == k,
            |k: Seq<char>| {
                let i = choose|i: int| 0 <= i < self.entries@.len() && (#[trigger] self.entries@[i]).0@ == k;
                kind_names(self.entries@[i].1@)
            },
        )
    }

    /// A table with no entries.
    pub fn new() -> (r: KindTable)
        ensures
            r.wf(),
            r.view() == Map::<Seq<char>, Seq<Seq<char>>>::empty(),
    {
        let r = KindTable { entries: Vec::new() };
        assert(r.view() =~= Map::<Seq<char>, Seq<Seq<char>>>::empty());
        r
    }

    /// Where `source` stands among the entries.
    fn position(&self, source: &SourceId) -> (r: Option<usize>)
        requires
            self.wf(),
        ensures
            match r {
                Some(i) => i < self.entries@.len() && self.entries@[i as int].0@ == source@,
                None => forall|i: int| 0 <= i < self.entries@.len() ==> (#[trigger] self.entries@[i]).0@ != source@,
            },
    {
        let mut i: usize = 0;
        while i < self.entries.len()
            invariant
                i <= self.entries@.len(),
                forall|j: int| 0 <= j < i ==> (#[trigger] self.entries@[j]).0@ != source@,
            decreases self.entries.len() - i,
        {
            if self.entries[i].0.same_as(source) {
                return Some(i);
            }
            i += 1;
        }
        None
    }

    /// The kinds configured for `source`, if any.
    pub fn get(&self, source: &SourceId) -> (r: Option<&Vec<Kind>>)
        requires
            self.wf(),
        ensures
            match r {
                Some(kinds) => self.view().contains_key(source@) && kind_names(kinds@) == self.view()[source@],
                None => !self.view().contains_key(source@),
            },
    {
        match self.position(source) {
            Some(i) => {
                proof {
                    let j = choose|j: int| 0 <= j < self.entries@.len() && (#[trigger] self.entries@[j]).0@ == source@;
                    assert(j == i);
                }
                Some(&self.entries[i].1)
            },
            None => None,
        }
    }

    /// Sets the kinds for `source`, replacing any it had.
    pub fn insert(&mut self, source: SourceId, kinds: Vec<Kind>)
        requires
            old(self).wf(),
        ensures
            final(self).wf(),
            final(self).view() == old(self).view().insert(source@, kind_names(kinds@)),
    {
        let ghost key = source@;
        let ghost value = kind_names(kinds@);
        match self.position(&source) {
            Some(i) => {
                let ghost before = self.entries@;
                self.entries.set(i, (source, kinds));
                proof {
                    assert forall|a: int, b: int| 0 <= a < b < self.entries@.len() implies (#[trigger] self.entries@[a]).0@ != (#[trigger] self.entries@[b]).0@ by {
                        if a != i && b != i {
                            assert(self.entries@[a] == before[a]);
                            assert(self.entries@[b] == before[b]);
                        } else if a == i {
                            assert(self.entries@[b] == before[b]);
                            assert(before[i as int].0@ == key);
                        } else {
                            assert(self.entries@[a] == before[a]);
                            assert(before[i as int].0@ == key);
                        }
                    }
                    assert(self.view() =~= old(self).view().insert(key, value)) by {
                        assert forall|k: Seq<char>| self.view().contains_key(k) == old(self).view().insert(key, value).contains_key(k) by {
                            if k == key {
                                assert(self.entries@[i as int].0@ == k);
                            } else if old(self).view().contains_key(k) {
                                let j = choose|j: int| 0 <= j < before.len() && (#[trigger] before[j]).0@ == k;
                                assert(self.entries@[j] == before[j]);
                            } else if self.view().contains_key(k) {
                                let j = choose|j: int| 0 <= j < self.entries@.len() && (#[trigger] self.entries@[j]).0@ == k;
                                assert(self.entries@[j] == before[j]);
                            }
                        }
                        assert forall|k: Seq<char>| self.view().contains_key(k) implies self.view()[k] == old(self).view().insert(key, value)[k] by {
                            let j = choose|j: int| 0 <= j < self.entries@.len() && (#[trigger] self.entries@[j]).0@ == k;
                            if k != key {
                                assert(self.entries@[j] == before[j]);
                                let jj = choose|jj: int| 0 <= jj < before.len() && (#[trigger] before[jj]).0@ == k;
                                assert(jj == j);
                            } else {
                                assert(j == i);
                            }
                        }
                    }
                }
            },
            None => {
                let ghost before = self.entries@;
                self.entries.push((source, kinds));
                proof {
                    assert forall|a: int, b: int| 0 <= a < b < self.entries@.len() implies (#[trigger] self.entries@[a]).0@ != (#[trigger] self.entries@[b]).0@ by {
                        assert(self.entries@[a] == before[a]);
                        if b < before.len() {
                            assert(self.entries@[b] == before[b]);
                        }
                    }
                    assert(self.view() =~= old(self).view().insert(key, value)) by {
                        assert forall|k: Seq<char>| self.view().contains_key(k) == old(self).view().insert(key, value).contains_key(k) by {
                            if k == key {
                                assert(self.entries@[before.len() as int].0@ == k);
                            } else if old(self).view().contains_key(k) {
                                let j = choose|j: int| 0 <= j < before.len() && (#[trigger] before[j]).0@ == k;
                                assert(self.entries@[j] == before[j]);
                            } else if self.view().contains_key(k) {
                                let j = choose|j: int| 0 <= j < self.entries@.len() && (#[trigger] self.entries@[j]).0@ == k;
                                assert(self.entries@[j] == before[j]);
                            }
                        }
                        assert forall|k: Seq<char>| self.view().contains_key(k) implies self.view()[k] == old(self).view().insert(key, value)[k] by {
                            let j = choose|j: int| 0 <= j < self.entries@.len() && (#[trigger] self.entries@[j]).0@ == k;
                            if k != key {
                                assert(self.entries@[j] == before[j]);
                                let jj = choose|jj: int| 0 <= jj < before.len() && (#[trigger] before[jj]).0@ == k;
                                assert(jj == j);
                            } else {
                                assert(j == before.len());
                            }
                        }
                    }
                }
            },
        }
    }

    /// The kinds to request from `source`: those configured for it, or
    /// `defaults` when none are.
    pub fn kinds_for(&self, source: &SourceId, defaults: &[Kind]) -> (r: Vec<Kind>)
        requires
            self.wf(),
        ensures
            kind_names(r@) == if self.view().contains_key(source@) && self.view()[source@].len() > 0 {
                self.view()[source@]
            } else {
                kind_names(defaults@)
            },
    {
        match self.get(source) {
            Some(kinds) if kinds.len() > 0 => {
                let r = copy_kinds(kinds.as_slice());
                assert(kind_names(r@) =~= kind_names(kinds@));
                r
            },
            _ => {
                let r = copy_kinds(defaults);
                assert(kind_names(r@) =~= kind_names(defaults@));
                r
            },
        }
    }
}

} // verus!
