use clishare::web::hit_counter::aggregator::{
    Action, Aggregator, Event, Message, Phase, IDLE_INTERVAL_SECS,
};
use clishare::web::hit_counter::channel::{HitCounter, Inbox};
use clishare::web::hit_counter::commit::{CommitRun, Stage, StoreRequest};
use clishare::web::hit_counter::pending::{PendingHits, PendingTotal};
use clishare::ShortCode;
use std::collections::HashMap;

/// A store in memory that counts the transactions opened on it and can be
/// told to fail.
struct Store {
    counts: HashMap<String, u64>,
    transactions: usize,
    statements: usize,
    failing_keys: Vec<String>,
    fail_begin: bool,
    fail_commit: bool,
}

fn store() -> Store {
    Store {
        counts: HashMap::new(),
        transactions: 0,
        statements: 0,
        failing_keys: Vec::new(),
        fail_begin: false,
        fail_commit: false,
    }
}

fn persisted(store: &Store, key: &str) -> u64 {
    store.counts.get(key).copied().unwrap_or(0)
}

/// Writes one batch to the store as the commit run directs and returns what
/// the run reports as lost.
fn commit(store: &mut Store, batch: Vec<PendingTotal>) -> Vec<(String, u32)> {
    let mut run = CommitRun::new(batch);
    let mut staged: Vec<(String, u32)> = Vec::new();
    loop {
        match run.request() {
            StoreRequest::Begin => {
                store.transactions += 1;
                run.report(!store.fail_begin);
            }
            StoreRequest::Increase(shortcode, hits) => {
                store.statements += 1;
                let key = shortcode.into_inner();
                if store.failing_keys.contains(&key) {
                    run.report(false);
                } else {
                    staged.push((key, hits));
                    run.report(true);
                }
            }
            StoreRequest::Commit => {
                if store.fail_commit {
                    run.report(false);
                } else {
                    for (key, hits) in staged.drain(..) {
                        *store.counts.entry(key).or_insert(0) += u64::from(hits);
                    }
                    run.report(true);
                }
            }
            StoreRequest::Done => break,
        }
    }
    assert_eq!(run.stage(), Stage::Finished);
    assert!(run.is_finished());
    run.lost()
        .into_iter()
        .map(|entry| (entry.shortcode.into_inner(), entry.hits))
        .collect()
}

/// Runs the aggregator loop. An idle wait takes no time here; the loop ends
/// when the aggregator stops or when it asks for more than `max_waits`
/// waits. Returns the number of waits that were granted.
fn drive(
    aggregator: &mut Aggregator,
    inbox: &Inbox,
    store: &mut Store,
    max_waits: usize,
) -> usize {
    let mut waits = 0;
    let mut action = Action::Poll;
    loop {
        let event = match action {
            Action::Poll => inbox.poll(),
            Action::Wait(seconds) => {
                assert_eq!(seconds, IDLE_INTERVAL_SECS);
                if waits == max_waits {
                    return waits;
                }
                waits += 1;
                Event::Waited
            }
            Action::Commit(batch) => {
                commit(store, batch);
                Event::Committed
            }
            Action::Stop => return waits,
        };
        assert!(aggregator.accepts(&event));
        action = aggregator.step(event);
    }
}

fn code(text: &str) -> ShortCode {
    ShortCode::from(text)
}

fn sorted(batch: Vec<PendingTotal>) -> Vec<(String, u32)> {
    let mut pairs: Vec<(String, u32)> = batch
        .into_iter()
        .map(|entry| (entry.shortcode.into_inner(), entry.hits))
        .collect();
    pairs.sort();
    pairs
}

#[test]
fn pending_starts_empty() {
    let pending = PendingHits::new();
    assert!(pending.is_empty());
    assert_eq!(pending.get(&code("abcd123456")), 0);
}

#[test]
fn pending_inserts_absent_key_and_adds_to_present_key() {
    let mut pending = PendingHits::new();
    pending.record(code("abcd123456"), 1);
    assert_eq!(pending.get(&code("abcd123456")), 1);
    pending.record(code("abcd123456"), 4);
    assert_eq!(pending.get(&code("abcd123456")), 5);
    assert_eq!(pending.get(&code("zzzz999999")), 0);
    assert!(!pending.is_empty());
}

#[test]
fn pending_keeps_a_key_recorded_with_zero_hits() {
    let mut pending = PendingHits::new();
    pending.record(code("abcd123456"), 0);
    assert!(!pending.is_empty());
    assert_eq!(sorted(pending.take()), vec![("abcd123456".to_string(), 0)]);
}

#[test]
fn pending_take_lists_each_key_once_and_empties_the_tally() {
    let mut pending = PendingHits::new();
    pending.record(code("b"), 2);
    pending.record(code("a"), 1);
    pending.record(code("b"), 3);
    pending.record(code("c"), 7);
    let batch = sorted(pending.take());
    assert_eq!(
        batch,
        vec![("a".to_string(), 1), ("b".to_string(), 5), ("c".to_string(), 7)]
    );
    assert!(pending.is_empty());
    assert!(pending.take().is_empty());
}

#[test]
fn pending_has_room_up_to_the_largest_count() {
    let mut pending = PendingHits::new();
    pending.record(code("k"), u32::MAX - 1);
    assert!(pending.has_room(&code("k"), 1));
    assert!(!pending.has_room(&code("k"), 2));
    assert!(pending.has_room(&code("other"), u32::MAX));
    pending.record(code("k"), 1);
    assert_eq!(pending.get(&code("k")), u32::MAX);
    assert!(pending.has_room(&code("k"), 0));
    assert!(!pending.has_room(&code("k"), 1));
}

#[test]
fn aggregator_merges_increments_and_polls_again() {
    let mut aggregator = Aggregator::new();
    assert_eq!(aggregator.phase(), Phase::Running);
    let action = aggregator.step(Event::Received(Message::Increment(code("k1"), 3)));
    assert!(matches!(action, Action::Poll));
    let action = aggregator.step(Event::Received(Message::Increment(code("k1"), 4)));
    assert!(matches!(action, Action::Poll));
    assert_eq!(aggregator.pending(&code("k1")), 7);
    assert_eq!(aggregator.phase(), Phase::Running);
}

#[test]
fn aggregator_waits_one_idle_interval_when_the_channel_is_idle() {
    let mut aggregator = Aggregator::new();
    match aggregator.step(Event::Idle) {
        Action::Wait(seconds) => assert_eq!(seconds, 5),
        other => panic!("expected a wait, got {:?}", other),
    }
    assert_eq!(aggregator.phase(), Phase::Running);
}

#[test]
fn aggregator_commits_on_flush_tick_and_after_a_wait() {
    let mut aggregator = Aggregator::new();
    aggregator.step(Event::Received(Message::Increment(code("k1"), 3)));
    match aggregator.step(Event::Received(Message::FlushTick)) {
        Action::Commit(batch) => assert_eq!(sorted(batch), vec![("k1".to_string(), 3)]),
        other => panic!("expected a commit, got {:?}", other),
    }
    assert_eq!(aggregator.pending(&code("k1")), 0);
    assert!(matches!(aggregator.step(Event::Committed), Action::Poll));
    aggregator.step(Event::Received(Message::Increment(code("k2"), 5)));
    match aggregator.step(Event::Waited) {
        Action::Commit(batch) => assert_eq!(sorted(batch), vec![("k2".to_string(), 5)]),
        other => panic!("expected a commit, got {:?}", other),
    }
    assert_eq!(aggregator.phase(), Phase::Running);
}

#[test]
fn aggregator_terminates_through_a_final_commit() {
    let mut aggregator = Aggregator::new();
    aggregator.step(Event::Received(Message::Increment(code("k1"), 3)));
    match aggregator.step(Event::Closed) {
        Action::Commit(batch) => assert_eq!(sorted(batch), vec![("k1".to_string(), 3)]),
        other => panic!("expected a commit, got {:?}", other),
    }
    assert_eq!(aggregator.phase(), Phase::Terminating);
    assert!(matches!(aggregator.step(Event::Committed), Action::Stop));
    assert_eq!(aggregator.phase(), Phase::Stopped);
    assert!(matches!(aggregator.step(Event::Idle), Action::Stop));
    assert!(matches!(
        aggregator.step(Event::Received(Message::Increment(code("k1"), 1))),
        Action::Stop
    ));
    assert_eq!(aggregator.phase(), Phase::Stopped);
}

#[test]
fn aggregator_refuses_an_increment_that_would_overflow() {
    let mut aggregator = Aggregator::new();
    aggregator.step(Event::Received(Message::Increment(code("k"), u32::MAX)));
    let event = Event::Received(Message::Increment(code("k"), 1));
    assert!(!aggregator.accepts(&event));
    match aggregator.try_step(event) {
        Err(Event::Received(Message::Increment(shortcode, hits))) => {
            assert_eq!(shortcode.as_str(), "k");
            assert_eq!(hits, 1);
        }
        other => panic!("expected the event back, got {:?}", other),
    }
    assert_eq!(aggregator.pending(&code("k")), u32::MAX);
    assert!(matches!(
        aggregator.try_step(Event::Received(Message::Increment(code("other"), 1))),
        Ok(Action::Poll)
    ));
    assert!(matches!(aggregator.try_step(Event::Idle), Ok(Action::Wait(5))));
}

#[test]
fn commit_run_issues_begin_statements_and_commit() {
    let batch = vec![
        PendingTotal { shortcode: code("k1"), hits: 3 },
        PendingTotal { shortcode: code("k2"), hits: 5 },
    ];
    let mut run = CommitRun::new(batch);
    assert_eq!(run.stage(), Stage::Opening);
    assert!(matches!(run.request(), StoreRequest::Begin));
    run.report(true);
    assert_eq!(run.stage(), Stage::Applying);
    match run.request() {
        StoreRequest::Increase(shortcode, hits) => {
            assert_eq!(shortcode.as_str(), "k1");
            assert_eq!(hits, 3);
        }
        other => panic!("expected a statement, got {:?}", other),
    }
    run.report(true);
    match run.request() {
        StoreRequest::Increase(shortcode, hits) => {
            assert_eq!(shortcode.as_str(), "k2");
            assert_eq!(hits, 5);
        }
        other => panic!("expected a statement, got {:?}", other),
    }
    run.report(true);
    assert_eq!(run.stage(), Stage::Closing);
    assert!(matches!(run.request(), StoreRequest::Commit));
    run.report(true);
    assert!(run.is_finished());
    assert!(matches!(run.request(), StoreRequest::Done));
    assert!(run.lost().is_empty());
    run.report(false);
    assert!(run.is_finished());
    assert!(run.lost().is_empty());
}

#[test]
fn commit_run_loses_the_batch_when_the_transaction_cannot_be_opened() {
    let mut store = store();
    store.fail_begin = true;
    let batch = vec![
        PendingTotal { shortcode: code("k1"), hits: 3 },
        PendingTotal { shortcode: code("k2"), hits: 5 },
    ];
    let lost = commit(&mut store, batch);
    assert_eq!(lost, vec![("k1".to_string(), 3), ("k2".to_string(), 5)]);
    assert_eq!(store.transactions, 1);
    assert_eq!(store.statements, 0);
    assert_eq!(persisted(&store, "k1"), 0);
    assert_eq!(persisted(&store, "k2"), 0);
}

#[test]
fn commit_run_loses_the_batch_when_the_commit_fails() {
    let mut store = store();
    store.fail_commit = true;
    let batch = vec![
        PendingTotal { shortcode: code("k1"), hits: 3 },
        PendingTotal { shortcode: code("k2"), hits: 5 },
    ];
    let lost = commit(&mut store, batch);
    assert_eq!(lost, vec![("k1".to_string(), 3), ("k2".to_string(), 5)]);
    assert_eq!(store.statements, 2);
    assert_eq!(persisted(&store, "k1"), 0);
    assert_eq!(persisted(&store, "k2"), 0);
}

#[test]
fn commutative_summation_over_two_interleavings() {
    let increments: Vec<(&str, u32)> =
        vec![("a", 1), ("b", 10), ("a", 2), ("c", 100), ("b", 20), ("a", 4)];
    let mut reversed = increments.clone();
    reversed.reverse();
    for order in [increments, reversed] {
        let (counter, inbox) = HitCounter::new();
        let mut aggregator = Aggregator::new();
        let mut store = store();
        for (key, hits) in order {
            assert!(counter.record(code(key), hits).is_ok());
        }
        assert!(counter.flush().is_ok());
        let waits = drive(&mut aggregator, &inbox, &mut store, 0);
        assert_eq!(waits, 0);
        assert_eq!(persisted(&store, "a"), 7);
        assert_eq!(persisted(&store, "b"), 30);
        assert_eq!(persisted(&store, "c"), 100);
        assert_eq!(store.transactions, 1);
        assert_eq!(store.statements, 3);
    }
}

#[test]
fn summation_holds_across_flushes_in_between() {
    let (counter, inbox) = HitCounter::new();
    let mut aggregator = Aggregator::new();
    let mut store = store();
    counter.record(code("a"), 1).unwrap();
    counter.flush().unwrap();
    counter.record(code("a"), 2).unwrap();
    counter.record(code("b"), 5).unwrap();
    counter.flush().unwrap();
    counter.record(code("a"), 4).unwrap();
    counter.flush().unwrap();
    drive(&mut aggregator, &inbox, &mut store, 0);
    assert_eq!(persisted(&store, "a"), 7);
    assert_eq!(persisted(&store, "b"), 5);
    assert_eq!(store.transactions, 3);
}

#[test]
fn flush_with_nothing_pending_opens_no_transaction() {
    let (counter, inbox) = HitCounter::new();
    let mut aggregator = Aggregator::new();
    let mut store = store();
    store.counts.insert("a".to_string(), 9);
    counter.flush().unwrap();
    counter.flush().unwrap();
    drive(&mut aggregator, &inbox, &mut store, 0);
    assert_eq!(store.transactions, 0);
    assert_eq!(store.statements, 0);
    assert_eq!(persisted(&store, "a"), 9);
    assert_eq!(store.counts.len(), 1);

    let mut run = CommitRun::new(Vec::new());
    assert!(run.is_finished());
    assert!(matches!(run.request(), StoreRequest::Done));
    run.report(true);
    assert!(run.is_finished());
    assert!(run.lost().is_empty());
}

#[test]
fn a_single_record_is_persisted_after_one_idle_interval() {
    let (counter, inbox) = HitCounter::new();
    let mut aggregator = Aggregator::new();
    let mut store = store();
    counter.record(code("k"), 4).unwrap();
    let waits = drive(&mut aggregator, &inbox, &mut store, 0);
    assert_eq!(waits, 0);
    assert_eq!(persisted(&store, "k"), 0);
    assert_eq!(aggregator.pending(&code("k")), 4);

    let mut aggregator = Aggregator::new();
    let (counter, inbox) = HitCounter::new();
    counter.record(code("k"), 4).unwrap();
    let waits = drive(&mut aggregator, &inbox, &mut store, 1);
    assert_eq!(waits, 1);
    assert_eq!(persisted(&store, "k"), 4);
    assert_eq!(aggregator.pending(&code("k")), 0);
    assert_eq!(store.transactions, 1);
}

#[test]
fn drain_on_shutdown() {
    let (counter, inbox) = HitCounter::new();
    let mut aggregator = Aggregator::new();
    let mut store = store();
    counter.record(code("k1"), 3).unwrap();
    counter.record(code("k2"), 5).unwrap();
    drop(counter);
    let waits = drive(&mut aggregator, &inbox, &mut store, 0);
    assert_eq!(waits, 0);
    assert_eq!(aggregator.phase(), Phase::Stopped);
    assert_eq!(persisted(&store, "k1"), 3);
    assert_eq!(persisted(&store, "k2"), 5);
    assert_eq!(store.counts.len(), 2);
    assert_eq!(store.transactions, 1);
}

#[test]
fn shutdown_with_nothing_pending_stops_without_a_transaction() {
    let (counter, inbox) = HitCounter::new();
    let mut aggregator = Aggregator::new();
    let mut store = store();
    drop(counter);
    drive(&mut aggregator, &inbox, &mut store, 0);
    assert_eq!(aggregator.phase(), Phase::Stopped);
    assert_eq!(store.transactions, 0);
}

#[test]
fn failure_isolation() {
    let (counter, inbox) = HitCounter::new();
    let mut aggregator = Aggregator::new();
    let mut store = store();
    store.failing_keys.push("k1".to_string());
    counter.record(code("k1"), 3).unwrap();
    counter.record(code("k2"), 5).unwrap();
    counter.flush().unwrap();
    drive(&mut aggregator, &inbox, &mut store, 0);
    assert_eq!(persisted(&store, "k1"), 0);
    assert_eq!(persisted(&store, "k2"), 5);
    assert_eq!(aggregator.pending(&code("k1")), 0);

    let batch = vec![
        PendingTotal { shortcode: code("k1"), hits: 3 },
        PendingTotal { shortcode: code("k2"), hits: 5 },
    ];
    let lost = commit(&mut store, batch);
    assert_eq!(lost, vec![("k1".to_string(), 3)]);
    assert_eq!(persisted(&store, "k1"), 0);
    assert_eq!(persisted(&store, "k2"), 10);
}

#[test]
fn end_to_end_scenario() {
    let (counter, inbox) = HitCounter::new();
    let mut aggregator = Aggregator::new();
    let mut store = store();
    let first = &counter;
    let second = &counter;
    let third = &counter;
    first.record(code("abcd123456"), 1).unwrap();
    second.record(code("zzzz999999"), 5).unwrap();
    third.record(code("abcd123456"), 1).unwrap();
    first.record(code("abcd123456"), 1).unwrap();
    counter.flush().unwrap();
    drive(&mut aggregator, &inbox, &mut store, 0);
    assert_eq!(persisted(&store, "abcd123456"), 3);
    assert_eq!(persisted(&store, "zzzz999999"), 5);
    assert_eq!(store.counts.len(), 2);
}

#[test]
fn channel_delivers_in_send_order_and_reports_idle_and_closed() {
    let (counter, inbox) = HitCounter::new();
    assert!(matches!(inbox.poll(), Event::Idle));
    counter.record(code("k1"), 3).unwrap();
    counter.flush().unwrap();
    counter.record(code("k2"), 5).unwrap();
    match inbox.poll() {
        Event::Received(Message::Increment(shortcode, hits)) => {
            assert_eq!(shortcode.as_str(), "k1");
            assert_eq!(hits, 3);
        }
        other => panic!("expected an increment, got {:?}", other),
    }
    assert!(matches!(inbox.poll(), Event::Received(Message::FlushTick)));
    drop(counter);
    match inbox.poll() {
        Event::Received(Message::Increment(shortcode, hits)) => {
            assert_eq!(shortcode.as_str(), "k2");
            assert_eq!(hits, 5);
        }
        other => panic!("expected an increment, got {:?}", other),
    }
    assert!(matches!(inbox.poll(), Event::Closed));
}

#[test]
fn record_hands_the_increment_back_when_the_aggregator_is_gone() {
    let (counter, inbox) = HitCounter::new();
    drop(inbox);
    match counter.record(code("k1"), 3) {
        Err(Message::Increment(shortcode, hits)) => {
            assert_eq!(shortcode.as_str(), "k1");
            assert_eq!(hits, 3);
        }
        other => panic!("expected the increment back, got {:?}", other),
    }
    assert!(matches!(counter.flush(), Err(Message::FlushTick)));
}
