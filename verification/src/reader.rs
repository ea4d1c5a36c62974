use vstd::prelude::*;
use crate::entry::Entry;
use crate::filter::{
    indices_view, lemma_extension_stays_increasing, matched_from, strictly_increasing, UnitFilter,
};

verus! {

/// The receiving half of a tokio bounded channel, declared so a reader can
/// own one; nothing about its state is modelled, every read goes through
/// `poll_channel`.
#[verifier::external_type_specification]
#[verifier::external_body]
#[verifier::reject_recursive_types(T)]
pub struct ExReceiver<T>(tokio::sync::mpsc::Receiver<T>);

/// What one non-blocking poll of the channel produced.
enum ChannelPoll {
    /// a queued entry was available and has been taken
    Delivered(Entry),
    /// nothing is queued right now, but the worker may send more
    Empty,
    /// the sending half is gone and the queue is drained
    Disconnected,
}

/// Relies on tokio::sync::mpsc::Receiver::try_recv: returns an available
/// message without blocking, or reports the channel empty or disconnected.
/// What arrives, and when, depends on the sending thread, so nothing is
/// promised of the outcome.
#[verifier::external_body]
fn poll_channel(receiver: &mut tokio::sync::mpsc::Receiver<Entry>) -> (p: ChannelPoll) {
    match receiver.try_recv() {
        Ok(e) => ChannelPoll::Delivered(e),
        Err(tokio::sync::mpsc::error::TryRecvError::Empty) => ChannelPoll::Empty,
        Err(tokio::sync::mpsc::error::TryRecvError::Disconnected) => ChannelPoll::Disconnected,
    }
}

/// Fold one poll outcome into the buffer: a delivered entry is appended —
/// that entry, nothing else — and any other outcome leaves the buffer as it
/// was and stops the drain.
fn absorb_poll(entries: &mut Vec<Entry>, p: ChannelPoll) -> (stop: bool)
    ensures
        p matches ChannelPoll::Delivered(e) ==> final(entries)@ == old(entries)@.push(e) && !stop,
        !(p matches ChannelPoll::Delivered(_)) ==> final(entries)@ == old(entries)@ && stop,
{
    match p {
        ChannelPoll::Delivered(e) => {
            entries.push(e);
            false
        },
        ChannelPoll::Empty => true,
        ChannelPoll::Disconnected => true,
    }
}

/// How many entries one `receive` call will move at most. The channel is
/// bounded far below this, so one call empties everything that was queued
/// when it started; the cap only keeps a producer that refills the channel
/// as fast as it is drained from pinning the consumer in a single call.
pub const DRAIN_LIMIT: usize = 4096;

/// Owns the growing in-memory entry buffer and the channel it is fed
/// through. The buffer is append-only, so an index, once handed out, keeps
/// referring to the same entry for the reader's whole lifetime.
pub struct JournalReader {
    entries: Vec<Entry>,
    receiver: tokio::sync::mpsc::Receiver<Entry>,
}

impl View for JournalReader {
    type V = Seq<Entry>;

    closed spec fn view(&self) -> Seq<Entry> {
        self.entries@
    }
}

impl JournalReader {
    /// A reader over an empty buffer, fed by `receiver`; the sending half
    /// belongs to the tailing worker.
    pub fn new(receiver: tokio::sync::mpsc::Receiver<Entry>) -> (r: Self)
        ensures
            r@.len() == 0,
    {
        JournalReader { entries: Vec::new(), receiver }
    }

    /// How many entries the buffer holds.
    pub fn len(&self) -> (n: usize)
        ensures
            n == self@.len(),
    {
        self.entries.len()
    }

    /// Read the entry at a position. Indices come from this reader's own
    /// filter results, so an out-of-range index is a caller error and is
    /// excluded outright rather than answered with an empty result.
    pub fn index(&self, i: usize) -> (e: &Entry)
        requires
            i < self@.len(),
        ensures
            *e == self@[i as int],
    {
        &self.entries[i]
    }

    /// Move every entry currently queued on the channel into the buffer, in
    /// the order the channel delivers them, returning as soon as the channel
    /// is momentarily empty; never blocks. The old buffer stays in place:
    /// draining only appends.
    pub fn receive(&mut self)
        ensures
            old(self)@.is_prefix_of(final(self)@),
    {
        let ghost orig: Seq<Entry> = self@;
        let mut budget: usize = DRAIN_LIMIT;
        while budget > 0
            invariant
                orig.is_prefix_of(self@),
            decreases budget,
        {
            let p = poll_channel(&mut self.receiver);
            if absorb_poll(&mut self.entries, p) {
                break ;
            }
            budget = budget - 1;
        }
    }

    /// A full linear scan: every index whose entry the predicate admits, in
    /// ascending arrival order.
    pub fn filter(&self, q: &UnitFilter) -> (r: Vec<usize>)
        ensures
            indices_view(r@) == matched_from(self@, *q, 0),
    {
        let mut r: Vec<usize> = Vec::new();
        let n = self.entries.len();
        let mut i: usize = 0;
        while i < n
            invariant
                i <= n,
                n == self@.len(),
                matched_from(self@, *q, 0) == indices_view(r@) + matched_from(self@, *q, i as int),
            decreases n - i,
    {
            let ghost r0 = r@;
            if q.accepts(&self.entries[i]) {
                r.push(i);
                proof {
                    assert(indices_view(r@) =~= indices_view(r0) + seq![i as int]);
                    assert((indices_view(r0) + seq![i as int]) + matched_from(
                        self@,
                        *q,
                        i as int + 1,
                    ) =~= indices_view(r0) + (seq![i as int] + matched_from(
                        self@,
                        *q,
                        i as int + 1,
                    )));
                }
            }
            i = i + 1;
        }
        assert(indices_view(r@) + matched_from(self@, *q, n as int) =~= indices_view(r@));
        r
    }

    /// Extend `accepted` with every admitted index strictly after `last`, in
    /// ascending order; entries up to and including `last` are not looked at
    /// again. This is the incremental step that spares a full rescan as the
    /// buffer grows: a list that ascends and stays at or below `last` still
    /// ascends after the extension.
    pub fn continue_filter(&self, q: &UnitFilter, accepted: &mut Vec<usize>, last: usize)
        requires
            last < self@.len(),
        ensures
            indices_view(final(accepted)@) == indices_view(old(accepted)@) + matched_from(
                self@,
                *q,
                last + 1,
            ),
            strictly_increasing(indices_view(old(accepted)@)) && (forall|t: int|
                0 <= t < old(accepted)@.len() ==> old(accepted)@[t] <= last)
                ==> strictly_increasing(indices_view(final(accepted)@)),
    {
        let n = self.entries.len();
        let mut i: usize = last + 1;
        while i < n
            invariant
                last + 1 <= i <= n,
                n == self@.len(),
                indices_view(old(accepted)@) + matched_from(self@, *q, last + 1) == indices_view(
                    accepted@,
                ) + matched_from(self@, *q, i as int),
            decreases n - i,
        {
            let ghost a0 = accepted@;
            if q.accepts(&self.entries[i]) {
                accepted.push(i);
                proof {
                    assert(indices_view(accepted@) =~= indices_view(a0) + seq![i as int]);
                    assert((indices_view(a0) + seq![i as int]) + matched_from(
                        self@,
                        *q,
                        i as int + 1,
                    ) =~= indices_view(a0) + (seq![i as int] + matched_from(
                        self@,
                        *q,
                        i as int + 1,
                    )));
                }
            }
            i = i + 1;
        }
        assert(indices_view(accepted@) + matched_from(self@, *q, n as int) =~= indices_view(
            accepted@,
        ));
        proof {
            if strictly_increasing(indices_view(old(accepted)@)) && (forall|t: int|
                0 <= t < old(accepted)@.len() ==> old(accepted)@[t] <= last) {
                assert forall|t: int|
                    0 <= t < indices_view(old(accepted)@).len() implies indices_view(
                    old(accepted)@,
                )[t] <= last as int by {
                    assert(indices_view(old(accepted)@)[t] == old(accepted)@[t] as int);
                }
                lemma_extension_stays_increasing(
                    indices_view(old(accepted)@),
                    self@,
                    *q,
                    last as int,
                );
            }
        }
    }
}

} // verus!
