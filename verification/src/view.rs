use vstd::prelude::*;
use crate::entry::Entry;
use crate::filter::{
    indices_view, lemma_incremental_matches_full, lemma_matched_from_accepted,
    lemma_matched_from_increasing, matched_from, UnitFilter,
};
use crate::reader::JournalReader;

verus! {

/// Whether a view is open, and with which predicate. A view that is open
/// always carries its predicate, so "open but without a filter state" cannot
/// be represented.
#[derive(Debug, Clone)]
pub enum ViewState {
    Closed,
    Open(UnitFilter),
}

/// The view controller: tracks the active predicate and keeps the filtered
/// index list up to date as entries keep arriving, extending it
/// incrementally instead of rescanning the whole buffer on every tick.
pub struct JournalWindow {
    /// the state machine: closed, or open with the active predicate
    pub state: ViewState,
    /// the indices of the buffer entries the predicate admits, ascending
    pub filtered: Vec<usize>,
    /// the buffer of arrived entries, and the channel feeding it
    pub reader: JournalReader,
}

/// An index list whose view another's extends is a prefix of it.
proof fn lemma_indices_prefix(a: Seq<usize>, b: Seq<usize>, tail: Seq<int>)
    requires
        indices_view(b) == indices_view(a) + tail,
    ensures
        a.is_prefix_of(b),
{
    assert(indices_view(a).len() == a.len());
    assert(indices_view(b).len() == b.len());
    assert forall|i: int| 0 <= i < a.len() implies a[i] == b[i] by {
        assert(indices_view(b)[i] == (indices_view(a) + tail)[i]);
        assert(indices_view(b)[i] == b[i] as int);
        assert(indices_view(a)[i] == a[i] as int);
    }
    assert(a =~= b.subrange(0, a.len() as int));
}

impl JournalWindow {
    /// The controller's governing invariant: an open view's filtered list is
    /// exactly what a full scan of the buffer under the active predicate
    /// would produce; a closed view holds no indices.
    pub open spec fn wf(self) -> bool {
        match self.state {
            ViewState::Closed => self.filtered@.len() == 0,
            ViewState::Open(q) => indices_view(self.filtered@) == matched_from(self.reader@, q, 0),
        }
    }

    /// A closed view over `reader`.
    pub fn new(reader: JournalReader) -> (r: Self)
        ensures
            r.wf(),
            r.state is Closed,
            r.reader@ == reader@,
    {
        JournalWindow { state: ViewState::Closed, filtered: Vec::new(), reader }
    }

    /// Open the view on a unit target, or on everything when no target is
    /// given; the filtered list is recomputed from scratch, since nothing
    /// computed under another predicate can be reused soundly.
    pub fn open(&mut self, target: Option<String>)
        ensures
            final(self).wf(),
            final(self).state == (match target {
                None => ViewState::Open(UnitFilter::All),
                Some(t) => ViewState::Open(UnitFilter::ForUnit(t)),
            }),
            final(self).reader@ == old(self).reader@,
    {
        let q = match target {
            None => UnitFilter::All,
            Some(t) => UnitFilter::ForUnit(t),
        };
        self.filtered = self.reader.filter(&q);
        self.state = ViewState::Open(q);
    }

    /// Close the view and drop its filtered list.
    pub fn close(&mut self)
        ensures
            final(self).wf(),
            final(self).state is Closed,
            final(self).reader@ == old(self).reader@,
    {
        self.state = ViewState::Closed;
        self.filtered = Vec::new();
    }

    /// One refresh tick: drain the channel into the buffer, then bring the
    /// filtered list up to date — incrementally, past the last known index,
    /// when the list already has one, else by a first full scan. Either way
    /// the list ends up equal to a full recomputation over the grown buffer.
    pub fn update(&mut self)
        requires
            old(self).wf(),
        ensures
            final(self).wf(),
            final(self).state == old(self).state,
            old(self).reader@.is_prefix_of(final(self).reader@),
            old(self).filtered@.is_prefix_of(final(self).filtered@),
    {
        let ghost before: Seq<Entry> = self.reader@;
        self.reader.receive();
        let ghost after: Seq<Entry> = self.reader@;
        match &self.state {
            ViewState::Closed => {
                assert(self.filtered@ =~= self.filtered@.subrange(0, self.filtered@.len() as int));
            },
            ViewState::Open(q) => {
                if self.filtered.len() == 0 {
                    let ghost f0: Seq<usize> = self.filtered@;
                    self.filtered = self.reader.filter(q);
                    assert(f0 =~= self.filtered@.subrange(0, 0));
                } else {
                    let ghost f0: Seq<usize> = self.filtered@;
                    let last = self.filtered[self.filtered.len() - 1];
                    proof {
                        assert(indices_view(f0).last() == last as int);
                        lemma_matched_from_increasing(before, *q, 0);
                        assert(last < before.len());
                        assert(before.len() <= after.len());
                    }
                    self.reader.continue_filter(q, &mut self.filtered, last);
                    proof {
                        lemma_incremental_matches_full(before, after, *q);
                        assert(matched_from(before, *q, 0).last() == last as int);
                        lemma_indices_prefix(f0, self.filtered@, matched_from(after, *q, last + 1));
                    }
                }
            },
        }
    }

    /// Whether the view is open.
    pub fn is_open(&self) -> (r: bool)
        ensures
            r == (self.state is Open),
    {
        match &self.state {
            ViewState::Open(_) => true,
            ViewState::Closed => false,
        }
    }

    /// How many entries the view currently shows.
    pub fn shown(&self) -> (n: usize)
        ensures
            n == self.filtered@.len(),
    {
        self.filtered.len()
    }

    /// Read the entry behind the `k`-th filtered index. Sound without any
    /// bounds test on the buffer: the invariant says the list only ever
    /// holds indices that the buffer reaches.
    pub fn shown_entry(&self, k: usize) -> (e: &Entry)
        requires
            self.wf(),
            k < self.filtered@.len(),
        ensures
            *e == self.reader@[self.filtered@[k as int] as int],
            self.state matches ViewState::Open(q) ==> q.spec_accepts(*e),
    {
        proof {
            match &self.state {
                ViewState::Closed => {
                    assert(false);
                },
                ViewState::Open(q) => {
                    lemma_matched_from_increasing(self.reader@, *q, 0);
                    lemma_matched_from_accepted(self.reader@, *q, 0);
                    assert(indices_view(self.filtered@)[k as int] == self.filtered@[k as int] as int);
                },
            }
        }
        let i = self.filtered[k];
        self.reader.index(i)
    }
}

} // verus!
