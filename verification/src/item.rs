//! The normalized unit of completed work.
//!
//! Every source converts its own representation into [`Item`]; sorting,
//! grouping and rendering operate only on this type.
use vstd::prelude::*;

use crate::text::{compare, lower, same, text_lt, to_lower, Order};
use crate::time::{formatted, Moment};

verus! {

broadcast use vstd::seq_lib::group_to_multiset_ensures;

/// Identifier of a data source, such as `github`, always in lower case.
#[derive(Debug, Clone, PartialEq, Eq, PartialOrd, Ord, Hash)]
pub struct SourceId {
    name: String,
}

/// Source-defined item category, such as `pr`, `issue` or `task`, always in
/// lower case.
///
/// Intentionally not a shared enum: adding a source must not require editing
/// a central type, and two sources may use the same word for different things.
#[derive(Debug, Clone, PartialEq, Eq, PartialOrd, Ord, Hash)]
pub struct Kind {
    name: String,
}

impl View for SourceId {
    type V = Seq<char>;

    closed spec fn view(&self) -> Seq<char> {
        self.name@
    }
}

impl View for Kind {
    type V = Seq<char>;

    closed spec fn view(&self) -> Seq<char> {
        self.name@
    }
}

impl SourceId {
    /// Names a source, folding ASCII letters to lower case.
    pub fn new(value: &str) -> (r: SourceId)
        ensures
            r@ == lower(value@),
    {
        SourceId { name: to_lower(value) }
    }

    pub fn as_str(&self) -> (r: &str)
        ensures
            r@ == self@,
    {
        self.name.as_str()
    }

    /// A copy of this identifier.
    pub fn copy(&self) -> (r: SourceId)
        ensures
            r@ == self@,
    {
        SourceId { name: self.name.clone() }
    }

    /// Whether two identifiers name the same source.
    pub fn same_as(&self, other: &SourceId) -> (r: bool)
        ensures
            r == (self@ == other@),
    {
        same(self.name.as_str(), other.name.as_str())
    }
}

impl Kind {
    /// Names a kind, folding ASCII letters to lower case.
    pub fn new(value: &str) -> (r: Kind)
        ensures
            r@ == lower(value@),
    {
        Kind { name: to_lower(value) }
    }

    pub fn as_str(&self) -> (r: &str)
        ensures
            r@ == self@,
    {
        self.name.as_str()
    }

    /// A copy of this kind.
    pub fn copy(&self) -> (r: Kind)
        ensures
            r@ == self@,
    {
        Kind { name: self.name.clone() }
    }

    /// Whether two kinds are the same.
    pub fn same_as(&self, other: &Kind) -> (r: bool)
        ensures
            r == (self@ == other@),
    {
        same(self.name.as_str(), other.name.as_str())
    }
}

impl core::str::FromStr for SourceId {
    type Err = core::convert::Infallible;

    fn from_str(s: &str) -> (r: Result<SourceId, core::convert::Infallible>)
        ensures
            r matches Ok(id) && id@ == lower(s@),
    {
        Ok(SourceId::new(s))
    }
}

impl core::str::FromStr for Kind {
    type Err = core::convert::Infallible;

    fn from_str(s: &str) -> (r: Result<Kind, core::convert::Infallible>)
        ensures
            r matches Ok(k) && k@ == lower(s@),
    {
        Ok(Kind::new(s))
    }
}

/// Copies of every kind in a list.
pub fn copy_kinds(kinds: &[Kind]) -> (r: Vec<Kind>)
    ensures
        r@.len() == kinds@.len(),
        forall|i: int| 0 <= i < kinds@.len() ==> (#[trigger] r@[i])@ == kinds@[i]@,
{
    let mut r: Vec<Kind> = Vec::new();
    let mut i: usize = 0;
    while i < kinds.len()
        invariant
            i <= kinds@.len(),
            r@.len() == i,
            forall|j: int| 0 <= j < i ==> (#[trigger] r@[j])@ == kinds@[j]@,
        decreases kinds.len() - i,
    {
        r.push(kinds[i].copy());
        i += 1;
    }
    r
}

/// A single piece of finished work, dated by whatever its source considers
/// completion (a merge, a close, a task tick).
#[derive(Debug, Clone)]
pub struct Item {
    pub completed_at: Moment,
    pub source: SourceId,
    pub kind: Kind,
    /// Source-local identifier shown beside the title, such as `#128`.
    pub reference: Option<String>,
    pub title: String,
    pub url: String,
    /// Where the item lives, such as a repository or project name.
    pub context: Option<String>,
}

impl Item {
    /// Completion date in the item's own zone, as `YYYY-MM-DD`.
    pub fn date(&self) -> (r: String)
        ensures
            r@ == formatted(
                "%Y-%m-%d"@,
                self.completed_at.date,
                self.completed_at.clock,
                self.completed_at.offset,
            ),
    {
        self.completed_at.format("%Y-%m-%d")
    }
}

/// `a` sorts strictly before `b`: oldest first, then by source, kind, title
/// and URL, so that repeated runs over the same data produce byte-identical
/// output.
pub open spec fn item_lt(a: Item, b: Item) -> bool {
    let (ta, tb) = (a.completed_at.instant.total(), b.completed_at.instant.total());
    if ta != tb {
        ta < tb
    } else if a.source@ != b.source@ {
        text_lt(a.source@, b.source@)
    } else if a.kind@ != b.kind@ {
        text_lt(a.kind@, b.kind@)
    } else if a.title@ != b.title@ {
        text_lt(a.title@, b.title@)
    } else {
        text_lt(a.url@, b.url@)
    }
}

/// The items are in order: none sorts strictly before one ahead of it.
pub open spec fn sorted(s: Seq<Item>) -> bool {
    forall|i: int, j: int| 0 <= i < j < s.len() ==> !item_lt(#[trigger] s[j], #[trigger] s[i])
}

proof fn lemma_text_facts(x: Seq<char>, y: Seq<char>, z: Seq<char>)
    ensures
        !text_lt(x, x),
        !(text_lt(x, y) && text_lt(y, x)),
        !(text_lt(y, z) && text_lt(z, y)),
        !(text_lt(x, z) && text_lt(z, x)),
        text_lt(x, y) && text_lt(y, z) ==> text_lt(x, z),
{
    crate::text::lemma_text_lt_irreflexive(x);
    crate::text::lemma_text_lt_asymmetric(x, y);
    crate::text::lemma_text_lt_asymmetric(y, z);
    crate::text::lemma_text_lt_asymmetric(x, z);
    if text_lt(x, y) && text_lt(y, z) {
        crate::text::lemma_text_lt_transitive(x, y, z);
    }
}

/// `item_lt` is a strict order: irreflexive, asymmetric and transitive.
proof fn lemma_item_lt_strict(a: Item, b: Item, c: Item)
    ensures
        !item_lt(a, a),
        item_lt(a, b) ==> !item_lt(b, a),
        item_lt(a, b) && item_lt(b, c) ==> item_lt(a, c),
{
    lemma_text_facts(a.source@, b.source@, c.source@);
    lemma_text_facts(a.kind@, b.kind@, c.kind@);
    lemma_text_facts(a.title@, b.title@, c.title@);
    lemma_text_facts(a.url@, b.url@, c.url@);
}

/// Whether `a` sorts strictly before `b`.
pub fn item_before(a: &Item, b: &Item) -> (r: bool)
    ensures
        r == item_lt(*a, *b),
{
    let ta = &a.completed_at.instant;
    let tb = &b.completed_at.instant;
    if ta.before(tb) {
        return true;
    }
    if tb.before(ta) {
        return false;
    }
    match compare(a.source.as_str(), b.source.as_str()) {
        Order::Less => return true,
        Order::Greater => return false,
        Order::Same => {},
    }
    match compare(a.kind.as_str(), b.kind.as_str()) {
        Order::Less => return true,
        Order::Greater => return false,
        Order::Same => {},
    }
    match compare(a.title.as_str(), b.title.as_str()) {
        Order::Less => return true,
        Order::Greater => return false,
        Order::Same => {},
    }
    match compare(a.url.as_str(), b.url.as_str()) {
        Order::Less => true,
        _ => false,
    }
}

/// Items that sort alike: the same instant, source, kind, title and URL.
pub open spec fn same_key(a: Item, b: Item) -> bool {
    &&& a.completed_at.instant.total() == b.completed_at.instant.total()
    &&& a.source@ == b.source@
    &&& a.kind@ == b.kind@
    &&& a.title@ == b.title@
    &&& a.url@ == b.url@
}

/// The items of `s` that sort alike with `k`, in their order in `s`.
pub open spec fn keyed(s: Seq<Item>, k: Item) -> Seq<Item> {
    s.filter(|it: Item| same_key(it, k))
}

/// Items that sort alike sort before nothing alike, and of two items one
/// sorts before the other or they sort alike.
proof fn lemma_key_order(a: Item, b: Item, c: Item)
    ensures
        same_key(a, b) ==> !item_lt(a, b),
        !item_lt(b, a) ==> item_lt(a, b) || same_key(a, b),
        same_key(b, c) ==> (item_lt(a, b) == item_lt(a, c)),
{
    crate::text::lemma_text_lt_irreflexive(a.url@);
    crate::text::lemma_text_total(a.source@, b.source@);
    crate::text::lemma_text_total(a.kind@, b.kind@);
    crate::text::lemma_text_total(a.title@, b.title@);
    crate::text::lemma_text_total(a.url@, b.url@);
}

proof fn lemma_keyed_single(x: Item, k: Item)
    ensures
        keyed(seq![x], k) == if same_key(x, k) {
            seq![x]
        } else {
            Seq::<Item>::empty()
        },
{
    reveal(Seq::filter);
    assert(seq![x].drop_last() =~= Seq::<Item>::empty());
    assert(Seq::<Item>::empty().filter(|it: Item| same_key(it, k)) =~= Seq::<Item>::empty());
}

proof fn lemma_keyed_none(s: Seq<Item>, k: Item)
    requires
        forall|i: int| 0 <= i < s.len() ==> !same_key(#[trigger] s[i], k),
    ensures
        keyed(s, k) == Seq::<Item>::empty(),
    decreases s.len(),
{
    reveal(Seq::filter);
    if s.len() > 0 {
        lemma_keyed_none(s.drop_last(), k);
        assert(!same_key(s[s.len() - 1], k));
    } else {
        assert(s.filter(|it: Item| same_key(it, k)) =~= Seq::<Item>::empty());
    }
}

proof fn lemma_keyed_add(a: Seq<Item>, b: Seq<Item>, k: Item)
    ensures
        keyed(a + b, k) == keyed(a, k) + keyed(b, k),
{
    Seq::filter_distributes_over_add(a, b, |it: Item| same_key(it, k));
}

/// Inserting `x` at `p` in sorted items, before the first that sorts after
/// it, adds it to its own key's items last.
proof fn lemma_keyed_insert(prev: Seq<Item>, p: int, x: Item, k: Item)
    requires
        sorted(prev),
        0 <= p <= prev.len(),
        p < prev.len() ==> item_lt(x, prev[p]),
    ensures
        keyed(prev.insert(p, x), k) == keyed(prev, k) + keyed(seq![x], k),
{
    let (a, b) = (prev.take(p), prev.skip(p));
    assert(prev =~= a + b);
    assert(prev.insert(p, x) =~= a + seq![x] + b);
    lemma_keyed_add(a, b, k);
    lemma_keyed_add(a + seq![x], b, k);
    lemma_keyed_add(a, seq![x], k);
    lemma_keyed_single(x, k);
    if same_key(x, k) {
        assert forall|i: int| 0 <= i < b.len() implies !same_key(#[trigger] b[i], k) by {
            let e = b[i];
            assert(e == prev[p + i]);
            if i > 0 {
                assert(!item_lt(prev[p + i], prev[p]));
                lemma_key_order(prev[p], e, x);
                if item_lt(prev[p], e) {
                    lemma_item_lt_strict(x, prev[p], e);
                } else {
                    lemma_key_order(x, prev[p], e);
                }
            }
            assert(item_lt(x, e));
            if same_key(e, k) {
                assert(same_key(x, e));
                lemma_key_order(x, e, e);
            }
        }
        lemma_keyed_none(b, k);
        assert(keyed(prev.insert(p, x), k) =~= keyed(prev, k) + keyed(seq![x], k));
    } else {
        assert(keyed(prev.insert(p, x), k) =~= keyed(prev, k) + keyed(seq![x], k));
    }
}

/// Orders items oldest first, breaking ties on stable fields so that
/// repeated runs over the same data produce byte-identical output. Items
/// that sort alike keep the order they came in.
pub fn sort(items: &mut Vec<Item>)
    ensures
        sorted(final(items)@),
        final(items)@.to_multiset() == old(items)@.to_multiset(),
        forall|k: Item| #[trigger] keyed(final(items)@, k) == keyed(old(items)@, k),
{
    let mut src: Vec<Item> = Vec::new();
    core::mem::swap(items, &mut src);
    let ghost initial = src@;
    let mut out: Vec<Item> = Vec::new();
    assert forall|k: Item| #[trigger] keyed(initial, k) == keyed(out@, k) + keyed(src@, k) by {
        lemma_keyed_none(out@, k);
        assert(keyed(out@, k) + keyed(src@, k) =~= keyed(src@, k));
    }
    while src.len() > 0
        invariant
            sorted(out@),
            out@.to_multiset().add(src@.to_multiset()) == initial.to_multiset(),
            forall|k: Item| #[trigger] keyed(initial, k) == keyed(out@, k) + keyed(src@, k),
        decreases src.len(),
    {
        let ghost before = src@;
        let x = src.remove(0);
        assert(before.to_multiset() == src@.to_multiset().insert(x)) by {
            assert(before.remove(0) == src@);
        }
        assert(before =~= seq![x] + src@);
        let mut p: usize = 0;
        while p < out.len() && !item_before(&x, &out[p])
            invariant
                p <= out@.len(),
                forall|k: int| 0 <= k < p ==> !item_lt(x, #[trigger] out@[k]),
            decreases out.len() - p,
        {
            p += 1;
        }
        let ghost prev = out@;
        out.insert(p, x);
        proof {
            assert(out@ == prev.insert(p as int, x));
            assert forall|k: Item| #[trigger] keyed(initial, k) == keyed(out@, k) + keyed(src@, k) by {
                lemma_keyed_insert(prev, p as int, x, k);
                lemma_keyed_add(seq![x], src@, k);
                assert(keyed(initial, k) == keyed(prev, k) + keyed(before, k));
                assert(keyed(out@, k) + keyed(src@, k) =~= keyed(prev, k) + (keyed(seq![x], k) + keyed(src@, k)));
            }
            assert forall|i: int, j: int| 0 <= i < j < out@.len() implies !item_lt(
                #[trigger] out@[j],
                #[trigger] out@[i],
            ) by {
                if j < p {
                    assert(out@[i] == prev[i]);
                    assert(out@[j] == prev[j]);
                } else if j == p {
                    assert(out@[i] == prev[i]);
                } else if i > p {
                    assert(out@[i] == prev[i - 1]);
                    assert(out@[j] == prev[j - 1]);
                } else if i < p {
                    assert(out@[i] == prev[i]);
                    assert(out@[j] == prev[j - 1]);
                } else {
                    assert(out@[j] == prev[j - 1]);
                    assert(item_lt(x, prev[p as int]));
                    if j - 1 > p {
                        assert(!item_lt(prev[j - 1], prev[p as int]));
                    }
                    lemma_item_lt_strict(prev[j - 1], x, prev[p as int]);
                    lemma_item_lt_strict(x, prev[p as int], prev[j - 1]);
                }
            }
        }
    }
    assert(src@.to_multiset() =~= vstd::multiset::Multiset::<Item>::empty());
    assert forall|k: Item| #[trigger] keyed(out@, k) == keyed(initial, k) by {
        lemma_keyed_none(src@, k);
        assert(keyed(out@, k) + keyed(src@, k) =~= keyed(out@, k));
    }
    *items = out;
}

/// The items whose URL no earlier item shares: the first of each URL, in
/// their initial order.
pub open spec fn first_of_each_url(s: Seq<Item>) -> Seq<Item>
    decreases s.len(),
{
    if s.len() == 0 {
        seq![]
    } else {
        let rest = first_of_each_url(s.drop_last());
        if exists|j: int| 0 <= j < s.len() - 1 && (#[trigger] s[j]).url@ == s.last().url@ {
            rest
        } else {
            rest.push(s.last())
        }
    }
}

proof fn lemma_first_of_each_url_members(s: Seq<Item>)
    ensures
        forall|k: int|
            0 <= k < first_of_each_url(s).len() ==> exists|j: int|
                0 <= j < s.len() && (#[trigger] first_of_each_url(s)[k]).url@ == (#[trigger] s[j]).url@,
        forall|j: int|
            0 <= j < s.len() ==> exists|k: int|
                0 <= k < first_of_each_url(s).len() && (#[trigger] first_of_each_url(s)[k]).url@
                    == (#[trigger] s[j]).url@,
    decreases s.len(),
{
    if s.len() > 0 {
        let t = s.drop_last();
        lemma_first_of_each_url_members(t);
        let rest = first_of_each_url(t);
        assert forall|k: int| 0 <= k < first_of_each_url(s).len() implies exists|j: int|
            0 <= j < s.len() && (#[trigger] first_of_each_url(s)[k]).url@ == (#[trigger] s[j]).url@ by {
            if k < rest.len() {
                assert(first_of_each_url(s)[k] == rest[k]);
                let j = choose|j: int| 0 <= j < t.len() && rest[k].url@ == (#[trigger] t[j]).url@;
                assert(s[j] == t[j]);
            } else {
                assert(first_of_each_url(s)[k] == s.last());
                assert(s[s.len() - 1] == s.last());
            }
        }
        assert forall|j: int| 0 <= j < s.len() implies exists|k: int|
            0 <= k < first_of_each_url(s).len() && (#[trigger] first_of_each_url(s)[k]).url@
                == (#[trigger] s[j]).url@ by {
            if j < t.len() {
                assert(s[j] == t[j]);
                let k = choose|k: int| 0 <= k < rest.len() && (#[trigger] rest[k]).url@ == t[j].url@;
                assert(first_of_each_url(s)[k] == rest[k]);
            } else if exists|i: int| 0 <= i < s.len() - 1 && (#[trigger] s[i]).url@ == s.last().url@ {
                let i = choose|i: int| 0 <= i < s.len() - 1 && (#[trigger] s[i]).url@ == s.last().url@;
                assert(s[i] == t[i]);
                let k = choose|k: int| 0 <= k < rest.len() && (#[trigger] rest[k]).url@ == t[i].url@;
                assert(first_of_each_url(s)[k] == rest[k]);
            } else {
                let k = rest.len() as int;
                assert(first_of_each_url(s)[k] == s.last());
            }
        }
    }
}

proof fn lemma_dedupe_step(prefix: Seq<Item>, out: Seq<Item>, x: Item, seen: bool)
    requires
        out == first_of_each_url(prefix),
        seen == exists|i: int| 0 <= i < out.len() && (#[trigger] out[i]).url@ == x.url@,
    ensures
        first_of_each_url(prefix.push(x)) == if seen { out } else { out.push(x) },
{
    lemma_first_of_each_url_members(prefix);
    let s = prefix.push(x);
    assert(s.drop_last() == prefix);
    assert(s.last() == x);
    if seen {
        let i = choose|i: int| 0 <= i < out.len() && (#[trigger] out[i]).url@ == x.url@;
        let j = choose|j: int| 0 <= j < prefix.len() && out[i].url@ == (#[trigger] prefix[j]).url@;
        assert(s[j] == prefix[j]);
    } else {
        assert forall|j: int| 0 <= j < s.len() - 1 implies (#[trigger] s[j]).url@ != s.last().url@ by {
            assert(s[j] == prefix[j]);
            if prefix[j].url@ == x.url@ {
                let kk = choose|kk: int| 0 <= kk < out.len() && (#[trigger] out[kk]).url@ == prefix[j].url@;
            }
        }
    }
}

/// Removes items sharing a URL, keeping the first occurrence.
///
/// Sources may legitimately return the same item from more than one query;
/// GitHub issue lookups match on author and assignee separately.
pub fn dedupe(items: &mut Vec<Item>)
    ensures
        final(items)@ == first_of_each_url(old(items)@),
{
    let mut src: Vec<Item> = Vec::new();
    core::mem::swap(items, &mut src);
    let ghost initial = src@;
    assert(initial.len() == src.len());
    let mut out: Vec<Item> = Vec::new();
    let mut taken: usize = 0;
    assert(initial.subrange(0, initial.len() as int) == initial);
    while src.len() > 0
        invariant
            taken + src@.len() == initial.len(),
            initial.len() <= usize::MAX,
            src@ == initial.subrange(taken as int, initial.len() as int),
            out@ == first_of_each_url(initial.take(taken as int)),
        decreases src.len(),
    {
        let ghost prefix = initial.take(taken as int);
        assert(src@[0] == initial[taken as int]);
        let x = src.remove(0);
        assert(initial.take(taken + 1) == prefix.push(x));
        let mut seen = false;
        let mut k: usize = 0;
        while k < out.len()
            invariant
                k <= out@.len(),
                seen == exists|i: int| 0 <= i < k && (#[trigger] out@[i]).url@ == x.url@,
            decreases out.len() - k,
        {
            if same(out[k].url.as_str(), x.url.as_str()) {
                seen = true;
            }
            k += 1;
        }
        proof {
            lemma_dedupe_step(prefix, out@, x, seen);
        }
        if !seen {
            out.push(x);
        }
        taken += 1;
    }
    assert(initial.take(initial.len() as int) == initial);
    *items = out;
}

} // verus!
