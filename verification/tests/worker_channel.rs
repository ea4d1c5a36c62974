use std::time::Duration;

use journal_tail::entry::Entry;
use journal_tail::error::Error;
use journal_tail::priority::Priority;
use journal_tail::reader::JournalReader;
use journal_tail::worker::{SourceEvent, TailWorker, WorkerAction};

fn record(unit: &str, message: &str, priority: &str) -> SourceEvent {
    SourceEvent::Record(
        1_000,
        vec![
            ("_SYSTEMD_UNIT".to_string(), unit.to_string()),
            ("MESSAGE".to_string(), message.to_string()),
            ("PRIORITY".to_string(), priority.to_string()),
        ],
    )
}

#[test]
fn worker_forwards_well_formed_records() {
    let mut w = TailWorker::new();
    match w.step(record("a.service", "hello", "4")) {
        WorkerAction::Forward(e) => {
            assert_eq!(e.unit(), "a.service");
            assert_eq!(e.message(), "hello");
            assert_eq!(e.priority(), Priority::Warning);
            assert_eq!(e.timestamp(), 1_000);
        },
        other => panic!("expected Forward, got {other:?}"),
    }
    assert_eq!(w.anomalies, 0);
}

#[test]
fn worker_counts_and_skips_malformed_records() {
    let mut w = TailWorker::new();
    assert!(matches!(w.step(record("a.service", "bad", "99")), WorkerAction::Skip));
    assert_eq!(w.anomalies, 1);
    assert!(matches!(w.step(record("a.service", "bad again", "x")), WorkerAction::Skip));
    assert_eq!(w.anomalies, 2);
    // the stream goes on: the next good record is still forwarded
    assert!(matches!(w.step(record("a.service", "fine", "6")), WorkerAction::Forward(_)));
    assert_eq!(w.anomalies, 2);
}

#[test]
fn worker_waits_when_quiet() {
    let mut w = TailWorker::new();
    assert!(matches!(w.step(SourceEvent::Quiet), WorkerAction::Wait));
    assert_eq!(w.anomalies, 0);
}

#[test]
fn worker_stops_cleanly_when_consumer_is_gone() {
    let mut w = TailWorker::new();
    match w.step(SourceEvent::Closed) {
        WorkerAction::Finish(r) => assert_eq!(r, Ok(())),
        other => panic!("expected Finish, got {other:?}"),
    }
}

#[test]
fn worker_surfaces_source_errors() {
    let mut w = TailWorker::new();
    match w.step(SourceEvent::Failed("wait failed".to_string())) {
        WorkerAction::Finish(Err(e)) => {
            assert_eq!(e, Error::Source("wait failed".to_string()));
            assert_eq!(e.message(), "log source: wait failed");
        },
        other => panic!("expected a terminal error, got {other:?}"),
    }
}

fn forwarded(worker: &mut TailWorker, event: SourceEvent) -> Entry {
    match worker.step(event) {
        WorkerAction::Forward(e) => e,
        other => panic!("expected Forward, got {other:?}"),
    }
}

#[test]
fn backpressure_bounded_channel_never_drops() {
    // a channel of capacity 2 that the consumer does not drain: the third
    // send must be refused, not dropped silently
    let (tx, rx) = tokio::sync::mpsc::channel::<Entry>(2);
    let mut w = TailWorker::new();
    tx.try_send(forwarded(&mut w, record("a.service", "m0", "6"))).unwrap();
    tx.try_send(forwarded(&mut w, record("a.service", "m1", "6"))).unwrap();
    let overflow = forwarded(&mut w, record("a.service", "m2", "6"));
    let overflow = match tx.try_send(overflow) {
        Err(tokio::sync::mpsc::error::TrySendError::Full(e)) => e,
        _ => panic!("a full bounded channel must refuse the send"),
    };

    // after one drain there is room again, and nothing was lost or reordered
    let mut reader = JournalReader::new(rx);
    reader.receive();
    assert_eq!(reader.len(), 2);
    tx.try_send(overflow).unwrap();
    reader.receive();
    assert_eq!(reader.len(), 3);
    assert_eq!(reader.index(0).message(), "m0");
    assert_eq!(reader.index(1).message(), "m1");
    assert_eq!(reader.index(2).message(), "m2");
}

#[test]
fn backpressure_blocked_sender_resumes_after_drain() {
    // a producer pushing 8 entries through a channel of capacity 1 blocks on
    // send and resumes as the consumer drains; every entry arrives, in order
    let rt = tokio::runtime::Builder::new_multi_thread()
        .worker_threads(2)
        .enable_time()
        .build()
        .expect("runtime");
    rt.block_on(async {
        let (tx, rx) = tokio::sync::mpsc::channel::<Entry>(1);
        let producer = tokio::spawn(async move {
            let mut w = TailWorker::new();
            for i in 0..8u32 {
                let e = match w.step(record("a.service", &format!("m{i}"), "6")) {
                    WorkerAction::Forward(e) => e,
                    _ => unreachable!(),
                };
                tx.send(e).await.expect("consumer alive");
            }
        });

        let mut reader = JournalReader::new(rx);
        while reader.len() < 8 {
            reader.receive();
            tokio::time::sleep(Duration::from_millis(2)).await;
        }
        producer.await.expect("producer finished");
        for i in 0..8u32 {
            assert_eq!(reader.index(i as usize).message(), format!("m{i}"));
        }
    });
}
