//! What a source returns for a window.
//!
//! A source asks one upstream system for work completed in a window and
//! normalizes the answer into [`Item`]s. The asking is I/O and belongs to the
//! program around the library; gathering the answers is done here.
use vstd::prelude::*;

use crate::item::{dedupe, first_of_each_url, sort, sorted, Item};

verus! {

/// What a source returned for a window.
#[derive(Debug, Default)]
pub struct Fetch {
    pub items: Vec<Item>,
    /// Conditions that leave the result usable but possibly incomplete, such
    /// as an upstream result cap, worded for the person reading the report.
    pub warnings: Vec<String>,
}

impl Fetch {
    /// Nothing fetched yet.
    pub fn new() -> (r: Fetch)
        ensures
            r.items@.len() == 0,
            r.warnings@.len() == 0,
    {
        Fetch { items: Vec::new(), warnings: Vec::new() }
    }

    /// Adds what one query returned: its items, and its warning if it has one.
    pub fn add(&mut self, items: Vec<Item>, warning: Option<String>)
        ensures
            final(self).items@ == old(self).items@ + items@,
            final(self).warnings@ == match warning {
                Some(w) => old(self).warnings@.push(w),
                None => old(self).warnings@,
            },
    {
        let mut items = items;
        self.items.append(&mut items);
        if let Some(w) = warning {
            self.warnings.push(w);
        }
    }

    /// Drops items found by more than one query, keeping the first of each
    /// URL.
    pub fn dedupe_items(&mut self)
        ensures
            final(self).items@ == first_of_each_url(old(self).items@),
            final(self).warnings@ == old(self).warnings@,
    {
        dedupe(&mut self.items);
    }
}

/// Every item the answers hold, in the order the answers came.
pub open spec fn all_items(answers: Seq<Fetch>) -> Seq<Item>
    decreases answers.len(),
{
    if answers.len() == 0 {
        seq![]
    } else {
        all_items(answers.drop_last()) + answers.last().items@
    }
}

/// The items of a report: every item the sources that answered returned,
/// without repeated URLs (the first of each kept), oldest first.
pub fn collect(answers: Vec<Fetch>) -> (r: Vec<Item>)
    ensures
        sorted(r@),
        r@.to_multiset() == first_of_each_url(all_items(answers@)).to_multiset(),
{
    let ghost all = answers@;
    let mut answers = answers;
    let mut items: Vec<Item> = Vec::new();
    let mut k: usize = 0;
    assert(all.subrange(0, all.len() as int) =~= all);
    assert(all.len() == answers.len());
    while answers.len() > 0
        invariant
            k <= all.len() <= usize::MAX,
            answers@ == all.subrange(k as int, all.len() as int),
            items@ == all_items(all.take(k as int)),
        decreases answers.len(),
    {
        let mut answer = answers.remove(0);
        proof {
            assert(answer == all[k as int]);
            assert(all.take(k + 1).drop_last() =~= all.take(k as int));
            assert(all.take(k + 1).last() == all[k as int]);
            assert(answers@ =~= all.subrange(k + 1, all.len() as int));
        }
        items.append(&mut answer.items);
        k += 1;
    }
    assert(all.take(k as int) =~= all);
    dedupe(&mut items);
    sort(&mut items);
    items
}

} // verus!
