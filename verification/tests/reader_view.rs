use journal_tail::entry::{Entry, EntryCommon};
use journal_tail::filter::UnitFilter;
use journal_tail::reader::JournalReader;
use journal_tail::view::JournalWindow;

fn service_entry(unit: &str, message: &str) -> Entry {
    let mut c = EntryCommon::with_timestamp(0);
    c.systemd_unit = unit.to_string();
    c.message = message.to_string();
    Entry::Service(c)
}

fn system_entry(unit: &str, message: &str) -> Entry {
    let mut c = EntryCommon::with_timestamp(0);
    c.unit = unit.to_string();
    c.message = message.to_string();
    Entry::System(c)
}

fn reader_with(
    entries: Vec<Entry>,
) -> (tokio::sync::mpsc::Sender<Entry>, JournalReader) {
    let (tx, rx) = tokio::sync::mpsc::channel(64);
    for e in entries {
        tx.try_send(e).expect("channel has room");
    }
    let mut reader = JournalReader::new(rx);
    reader.receive();
    (tx, reader)
}

#[test]
fn drain_preserves_push_order() {
    let (_tx, reader) = reader_with(vec![
        service_entry("a.service", "first"),
        service_entry("b.service", "second"),
        service_entry("a.service", "third"),
    ]);
    assert_eq!(reader.len(), 3);
    assert_eq!(reader.index(0).message(), "first");
    assert_eq!(reader.index(1).message(), "second");
    assert_eq!(reader.index(2).message(), "third");
}

#[test]
fn drain_is_append_only_across_calls() {
    let (tx, mut reader) = reader_with(vec![service_entry("a.service", "one")]);
    assert_eq!(reader.len(), 1);

    tx.try_send(service_entry("b.service", "two")).unwrap();
    tx.try_send(service_entry("a.service", "three")).unwrap();
    reader.receive();

    assert_eq!(reader.len(), 3);
    // the entry at index 0 is still the same one
    assert_eq!(reader.index(0).message(), "one");
    assert_eq!(reader.index(1).message(), "two");
    assert_eq!(reader.index(2).message(), "three");
}

#[test]
fn drain_on_empty_channel_returns_at_once() {
    let (_tx, mut reader) = reader_with(vec![]);
    reader.receive();
    assert_eq!(reader.len(), 0);
}

#[test]
fn drain_after_sender_dropped_keeps_entries() {
    let (tx, mut reader) = reader_with(vec![service_entry("a.service", "kept")]);
    drop(tx);
    reader.receive();
    assert_eq!(reader.len(), 1);
    assert_eq!(reader.index(0).message(), "kept");
}

#[test]
fn filter_for_unit_scenario() {
    // units A, B, A in that order
    let (tx, mut reader) = reader_with(vec![
        service_entry("A", "a0"),
        service_entry("B", "b0"),
        service_entry("A", "a1"),
    ]);
    let q = UnitFilter::ForUnit("A".to_string());
    let mut list = reader.filter(&q);
    assert_eq!(list, vec![0, 2]);

    // one more A entry arrives; continuing after index 2 appends index 3
    tx.try_send(service_entry("A", "a2")).unwrap();
    reader.receive();
    reader.continue_filter(&q, &mut list, 2);
    assert_eq!(list, vec![0, 2, 3]);

    // continuing again with nothing new appends nothing
    reader.continue_filter(&q, &mut list, 3);
    assert_eq!(list, vec![0, 2, 3]);
}

#[test]
fn filter_all_returns_every_index() {
    let (_tx, reader) = reader_with(vec![
        service_entry("A", "x"),
        system_entry("B", "y"),
        service_entry("C", "z"),
    ]);
    assert_eq!(reader.filter(&UnitFilter::All), vec![0, 1, 2]);
}

#[test]
fn filter_indices_strictly_increase() {
    let (_tx, reader) = reader_with(vec![
        service_entry("A", "0"),
        service_entry("B", "1"),
        service_entry("A", "2"),
        service_entry("A", "3"),
        service_entry("B", "4"),
        service_entry("A", "5"),
    ]);
    let list = reader.filter(&UnitFilter::ForUnit("A".to_string()));
    for pair in list.windows(2) {
        assert!(pair[0] < pair[1]);
    }
}

#[test]
fn incremental_equals_full_for_any_batching() {
    // the same 9 entries, delivered in batches of 1, 2 and 3; extending after
    // every batch must equal one full scan at the end
    let all: Vec<Entry> = (0..9)
        .map(|i| {
            if i % 3 == 0 {
                service_entry("A", &format!("m{i}"))
            } else {
                service_entry("B", &format!("m{i}"))
            }
        })
        .collect();
    let q = UnitFilter::ForUnit("A".to_string());

    let (tx, mut reader) = reader_with(vec![]);
    let mut incremental: Vec<usize> = Vec::new();
    let mut fed: usize = 0;
    for batch in [1usize, 2, 3, 1, 2] {
        for _ in 0..batch {
            tx.try_send(all[fed].clone()).unwrap();
            fed += 1;
        }
        reader.receive();
        if incremental.is_empty() {
            incremental = reader.filter(&q);
        } else {
            let last = *incremental.last().unwrap();
            reader.continue_filter(&q, &mut incremental, last);
        }
    }
    assert_eq!(fed, all.len());
    assert_eq!(incremental, reader.filter(&q));
    assert_eq!(incremental, vec![0, 3, 6]);
}

#[test]
fn init_scope_matches_any_unit_target() {
    let (_tx, reader) = reader_with(vec![
        service_entry("nginx.service", "own"),
        service_entry("init.scope", "companion"),
        service_entry("other.service", "stranger"),
    ]);
    // the init.scope entry appears in the list for target nginx.service
    let list = reader.filter(&UnitFilter::ForUnit("nginx.service".to_string()));
    assert_eq!(list, vec![0, 1]);
}

#[test]
fn window_opens_filters_and_extends() {
    let (tx, reader) = {
        let (tx, rx) = tokio::sync::mpsc::channel(64);
        (tx, JournalReader::new(rx))
    };
    let mut window = JournalWindow::new(reader);
    assert!(!window.is_open());

    tx.try_send(service_entry("A", "first a")).unwrap();
    tx.try_send(service_entry("B", "only b")).unwrap();
    window.update();
    // a closed view drains but shows nothing
    assert!(!window.is_open());
    assert_eq!(window.shown(), 0);

    window.open(Some("A".to_string()));
    assert!(window.is_open());
    assert_eq!(window.shown(), 1);
    assert_eq!(window.shown_entry(0).message(), "first a");

    // two more entries arrive; the next tick extends incrementally
    tx.try_send(service_entry("B", "more b")).unwrap();
    tx.try_send(service_entry("A", "second a")).unwrap();
    window.update();
    assert_eq!(window.shown(), 2);
    assert_eq!(window.shown_entry(1).message(), "second a");

    // switching the target recomputes from scratch
    window.open(Some("B".to_string()));
    assert_eq!(window.shown(), 2);
    assert_eq!(window.shown_entry(0).message(), "only b");
    assert_eq!(window.shown_entry(1).message(), "more b");

    // opening with no target shows everything
    window.open(None);
    assert_eq!(window.shown(), 4);

    window.close();
    assert!(!window.is_open());
    assert_eq!(window.shown(), 0);
}

#[test]
fn window_first_entries_arrive_after_open() {
    // open on an empty buffer, then let entries arrive: the first tick with
    // data bootstraps the list by a full scan
    let (tx, rx) = tokio::sync::mpsc::channel(64);
    let mut window = JournalWindow::new(JournalReader::new(rx));
    window.open(Some("A".to_string()));
    assert_eq!(window.shown(), 0);

    tx.try_send(service_entry("B", "no")).unwrap();
    tx.try_send(service_entry("A", "yes")).unwrap();
    window.update();
    assert_eq!(window.shown(), 1);
    assert_eq!(window.shown_entry(0).message(), "yes");
}

#[test]
fn window_target_matches_system_entries_too() {
    // a manager-written entry for the unit is found through UNIT=
    let (_tx, reader) = reader_with(vec![
        system_entry("cron.service", "started"),
        service_entry("cron.service", "ready"),
    ]);
    let mut window = JournalWindow::new(reader);
    window.open(Some("cron.service".to_string()));
    assert_eq!(window.shown(), 2);
    assert_eq!(window.shown_entry(0).kind(), "system");
    assert_eq!(window.shown_entry(1).kind(), "service");
}
