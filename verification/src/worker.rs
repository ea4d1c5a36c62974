use vstd::prelude::*;
use crate::entry::Entry;
use crate::error::Error;
use crate::parse::{parse_journal_kv, parsed_entry, spec_priority};

verus! {

/// What the log source produced on one iteration of the tailing loop.
#[derive(Debug)]
pub enum SourceEvent {
    /// a new record: its receipt timestamp and its raw field pairs
    Record(u64, Vec<(String, String)>),
    /// nothing further is available right now
    Quiet,
    /// the consumer dropped the receiving half of the channel
    Closed,
    /// the source failed while being opened, read or waited on
    Failed(String),
}

/// What the worker must do next.
#[derive(Debug)]
pub enum WorkerAction {
    /// push this entry onto the bounded channel; a full channel suspends
    /// the worker until the consumer drains — that backpressure, not the
    /// worker, bounds the delivery path
    Forward(Entry),
    /// the record was malformed; it has been counted and the stream goes on
    Skip,
    /// block-wait briefly for new data, then poll the source again
    Wait,
    /// stop: cleanly after a shutdown, or with the terminal error
    Finish(Result<(), Error>),
}

/// The tailing worker's decisions between source reads. All the I/O — the
/// blocking reads, the waits and the channel sends — happens outside; this
/// state machine turns each outcome into the next action, so that a
/// well-formed record is always forwarded and a malformed one is counted
/// rather than either crashing the worker or vanishing silently.
#[derive(Debug)]
pub struct TailWorker {
    /// how many malformed records were skipped so far (saturating)
    pub anomalies: u64,
}

impl TailWorker {
    /// A fresh worker that has seen no anomalies.
    pub fn new() -> (r: Self)
        ensures
            r.anomalies == 0,
    {
        TailWorker { anomalies: 0 }
    }

    /// Decide the next action for one source event.
    pub fn step(&mut self, event: SourceEvent) -> (a: WorkerAction)
        ensures
            event matches SourceEvent::Record(ts, fields) ==> {
                &&& spec_priority(fields@) is Some ==> (a matches WorkerAction::Forward(e)
                    && parsed_entry(e, ts, fields@) && *final(self) == *old(self))
                &&& spec_priority(fields@) is None ==> (a is Skip && final(self).anomalies == (
                if old(self).anomalies < u64::MAX {
                    old(self).anomalies + 1
                } else {
                    u64::MAX as int
                }))
            },
            event is Quiet ==> a is Wait && *final(self) == *old(self),
            event is Closed ==> a == WorkerAction::Finish(Ok::<(), Error>(())) && *final(self)
                == *old(self),
            event matches SourceEvent::Failed(m) ==> a == WorkerAction::Finish(
                Err::<(), Error>(Error::Source(m)),
            ) && *final(self) == *old(self),
    {
        match event {
            SourceEvent::Record(timestamp, fields) => match parse_journal_kv(
                timestamp,
                &fields,
            ) {
                Ok(e) => WorkerAction::Forward(e),
                Err(_) => {
                    self.anomalies = if self.anomalies < u64::MAX {
                        self.anomalies + 1
                    } else {
                        u64::MAX
                    };
                    WorkerAction::Skip
                },
            },
            SourceEvent::Quiet => WorkerAction::Wait,
            SourceEvent::Closed => WorkerAction::Finish(Ok(())),
            SourceEvent::Failed(m) => WorkerAction::Finish(Err(Error::Source(m))),
        }
    }
}

} // verus!
