use vstd::prelude::*;
use crate::entry::Entry;

verus! {

/// The active predicate of a view: show everything, or the records of one
/// unit. A unit target also admits the records tagged with the companion
/// unit `"init.scope"`, whatever the target.
#[derive(Debug, Clone)]
pub enum UnitFilter {
    All,
    ForUnit(String),
}

impl UnitFilter {
    /// Whether the predicate admits an entry.
    pub open spec fn spec_accepts(self, e: Entry) -> bool {
        match self {
            UnitFilter::All => true,
            UnitFilter::ForUnit(t) => e.spec_unit() == t@ || e.spec_unit() == "init.scope"@,
        }
    }

    /// Evaluate the predicate on one entry.
    pub fn accepts(&self, e: &Entry) -> (r: bool)
        ensures
            r == self.spec_accepts(*e),
    {
        match self {
            UnitFilter::All => true,
            UnitFilter::ForUnit(t) => e.is_for_unit(t.as_str()) || e.is_for_unit("init.scope"),
        }
    }
}

/// An index list as the mathematical sequence it stands for.
pub open spec fn indices_view(v: Seq<usize>) -> Seq<int> {
    v.map_values(|i: usize| i as int)
}

/// An index sequence that ascends strictly.
pub open spec fn strictly_increasing(s: Seq<int>) -> bool {
    forall|a: int, b: int| 0 <= a < b < s.len() ==> s[a] < s[b]
}

/// The indices at or after `start` whose entries the predicate admits, in
/// ascending order. `matched_from(entries, q, 0)` is the whole filter result
/// over the buffer.
pub open spec fn matched_from(entries: Seq<Entry>, q: UnitFilter, start: int) -> Seq<int>
    decreases entries.len() - start,
{
    if start < 0 || start >= entries.len() {
        Seq::empty()
    } else {
        let rest = matched_from(entries, q, start + 1);
        if q.spec_accepts(entries[start]) {
            seq![start] + rest
        } else {
            rest
        }
    }
}

/// Filter results are strictly increasing index lists, and every index they
/// hold lies between `start` and the end of the buffer.
pub proof fn lemma_matched_from_increasing(entries: Seq<Entry>, q: UnitFilter, start: int)
    ensures
        forall|a: int, b: int|
            0 <= a < b < matched_from(entries, q, start).len() ==> matched_from(entries, q, start)[a]
                < matched_from(entries, q, start)[b],
        forall|a: int|
            0 <= a < matched_from(entries, q, start).len() ==> start <= #[trigger] matched_from(
                entries,
                q,
                start,
            )[a] < entries.len(),
    decreases entries.len() - start,
{
    if start < 0 || start >= entries.len() {
    } else {
        lemma_matched_from_increasing(entries, q, start + 1);
        let rest = matched_from(entries, q, start + 1);
        if q.spec_accepts(entries[start]) {
            let whole = seq![start] + rest;
            assert(whole[0] == start);
            assert(forall|a: int| 0 <= a < rest.len() ==> whole[a + 1] == rest[a]);
        }
    }
}

/// Every index a filter yields points at an entry the predicate admits.
pub proof fn lemma_matched_from_accepted(entries: Seq<Entry>, q: UnitFilter, start: int)
    ensures
        forall|a: int|
            0 <= a < matched_from(entries, q, start).len() ==> q.spec_accepts(
                entries[#[trigger] matched_from(entries, q, start)[a]],
            ),
    decreases entries.len() - start,
{
    if start < 0 || start >= entries.len() {
    } else {
        lemma_matched_from_accepted(entries, q, start + 1);
        lemma_matched_from_increasing(entries, q, start + 1);
        let rest = matched_from(entries, q, start + 1);
        if q.spec_accepts(entries[start]) {
            let whole = seq![start] + rest;
            assert(whole[0] == start);
            assert(forall|a: int| 0 <= a < rest.len() ==> whole[a + 1] == rest[a]);
        }
    }
}

/// Extending a filtered list past its last index keeps it strictly
/// increasing: when every index already in the list is at most `last`, the
/// indices a continued scan appends all exceed `last`, and the whole list
/// still ascends.
pub proof fn lemma_extension_stays_increasing(
    done: Seq<int>,
    entries: Seq<Entry>,
    q: UnitFilter,
    last: int,
)
    requires
        strictly_increasing(done),
        forall|t: int| 0 <= t < done.len() ==> done[t] <= last,
    ensures
        strictly_increasing(done + matched_from(entries, q, last + 1)),
        forall|t: int|
            0 <= t < matched_from(entries, q, last + 1).len() ==> #[trigger] matched_from(
                entries,
                q,
                last + 1,
            )[t] > last,
{
    lemma_matched_from_increasing(entries, q, last + 1);
    let tail = matched_from(entries, q, last + 1);
    let whole = done + tail;
    assert forall|a: int, b: int| 0 <= a < b < whole.len() implies whole[a] < whole[b] by {
        if b < done.len() {
        } else if a >= done.len() {
            assert(whole[a] == tail[a - done.len()]);
            assert(whole[b] == tail[b - done.len()]);
        } else {
            assert(whole[a] == done[a]);
            assert(whole[b] == tail[b - done.len()]);
            assert(tail[b - done.len()] >= last + 1);
        }
    }
}

/// Growing the buffer only appends matches: the filter over the grown buffer
/// is the filter over the old buffer followed by the filter over the new
/// suffix alone. Stable indices make previously computed results reusable.
pub proof fn lemma_matched_from_grow(
    old_entries: Seq<Entry>,
    new_entries: Seq<Entry>,
    q: UnitFilter,
    start: int,
)
    requires
        old_entries.is_prefix_of(new_entries),
        0 <= start <= old_entries.len(),
    ensures
        matched_from(new_entries, q, start) == matched_from(old_entries, q, start) + matched_from(
            new_entries,
            q,
            old_entries.len() as int,
        ),
    decreases old_entries.len() - start,
{
    let tail = matched_from(new_entries, q, old_entries.len() as int);
    if start == old_entries.len() {
        assert(matched_from(old_entries, q, start) =~= Seq::<int>::empty());
        assert(Seq::<int>::empty() + tail =~= tail);
    } else {
        lemma_matched_from_grow(old_entries, new_entries, q, start + 1);
        assert(new_entries[start] == old_entries[start]);
        if q.spec_accepts(old_entries[start]) {
            assert(seq![start] + (matched_from(old_entries, q, start + 1) + tail) =~= (seq![start]
                + matched_from(old_entries, q, start + 1)) + tail);
        }
    }
}

/// Incremental extension equals full recomputation: when `filter` has
/// produced the complete, non-empty result over the old buffer and the
/// buffer has since grown, continuing strictly after the last matched index
/// yields exactly the full result over the grown buffer.
pub proof fn lemma_incremental_matches_full(
    old_entries: Seq<Entry>,
    new_entries: Seq<Entry>,
    q: UnitFilter,
)
    requires
        old_entries.is_prefix_of(new_entries),
        matched_from(old_entries, q, 0).len() > 0,
    ensures
        matched_from(new_entries, q, 0) == matched_from(old_entries, q, 0) + matched_from(
            new_entries,
            q,
            matched_from(old_entries, q, 0).last() + 1,
        ),
{
    let done = matched_from(old_entries, q, 0);
    let last = done.last();
    lemma_matched_from_increasing(old_entries, q, 0);
    assert(0 <= last < old_entries.len());

    // Nothing in the old buffer matches strictly after `last`: the part of
    // the old result past `last` would otherwise be non-empty, yet `last` is
    // the largest matched index.
    let prefix = old_entries.take(last + 1);
    assert(prefix.is_prefix_of(old_entries));
    lemma_matched_from_grow(prefix, old_entries, q, 0);
    let after = matched_from(old_entries, q, last + 1);
    assert(done == matched_from(prefix, q, 0) + after);
    if after.len() > 0 {
        lemma_matched_from_increasing(old_entries, q, last + 1);
        assert(after.last() >= last + 1);
        assert(done.last() == (matched_from(prefix, q, 0) + after).last());
        assert(done.last() == after.last());
        assert(false);
    }
    assert(after =~= Seq::<int>::empty());

    // Continuing after `last` over the grown buffer sees exactly the new
    // suffix's matches, and the full result decomposes the same way.
    lemma_matched_from_grow(old_entries, new_entries, q, last + 1);
    let tail = matched_from(new_entries, q, old_entries.len() as int);
    assert(matched_from(new_entries, q, last + 1) =~= tail);
    lemma_matched_from_grow(old_entries, new_entries, q, 0);
}

} // verus!
