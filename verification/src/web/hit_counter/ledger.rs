//! The counter as a whole: what the store holds, what was lost on the way
//! to it, and what the aggregator still holds back, and what is true of the
//! three at every moment.
//!
//! The ledger follows the aggregator through a trace of events. Each commit
//! on the way meets a fate: whether its transaction opens, which statements
//! the store refuses, and whether the transaction commits.

use crate::web::hit_counter::aggregator::{
    answers, duty, next, ActionView, AggregatorView, EventView, MessageView, Phase,
    IDLE_INTERVAL_SECS,
};
use crate::web::hit_counter::accounting::{
    amount_of, drive, lemma_amount_of_listed, lemma_course_of_a_run, lemma_credited_of_entry,
    lemma_credited_of_stranger, lemma_persisted_or_lost, lemma_settle_adds_credited,
};
use crate::web::hit_counter::commit::{
    lost, persisted, settle, start, wanted, CommitRunView, Stage, StoreRequestView,
};
use crate::web::hit_counter::pending::{count_of, lists};
use vstd::prelude::*;

verus! {

/// How the store answers during one commit.
pub struct Fate {
    /// Whether the transaction can be opened.
    pub opens: bool,
    /// The keys whose statement the store refuses.
    pub refuses: Set<Seq<char>>,
    /// Whether the transaction can be committed.
    pub commits: bool,
}

/// The fate of a commit in which the store accepts every request.
pub open spec fn kind() -> Fate {
    Fate { opens: true, refuses: Set::empty(), commits: true }
}

/// Whether the count of `key` reaches the store in a commit that meets
/// `fate`.
pub open spec fn reaches(fate: Fate, key: Seq<char>) -> bool {
    fate.opens && fate.commits && !fate.refuses.contains(key)
}

/// What the store answers, one request after the other, to a run over
/// `entries` that meets `fate`.
pub open spec fn replies_under(entries: Seq<(Seq<char>, nat)>, fate: Fate) -> Seq<bool> {
    if entries.len() == 0 {
        Seq::empty()
    } else if !fate.opens {
        seq![false]
    } else {
        (seq![true] + outcomes_under(entries, fate)).push(fate.commits)
    }
}

/// What the store answers to each statement of `entries` under `fate`.
pub open spec fn outcomes_under(entries: Seq<(Seq<char>, nat)>, fate: Fate) -> Seq<bool> {
    Seq::new(entries.len(), |i: int| !fate.refuses.contains(entries[i].0))
}

/// The run over `entries` once it has met `fate`.
pub open spec fn run_under(entries: Seq<(Seq<char>, nat)>, fate: Fate) -> CommitRunView {
    drive(start(entries), replies_under(entries, fate))
}

/// The persisted counts, the lost counts and the aggregator, side by side.
pub struct Ledger {
    pub store: Map<Seq<char>, nat>,
    pub lost: Map<Seq<char>, nat>,
    pub aggregator: AggregatorView,
}

/// An empty store beside a newly started aggregator, with nothing lost.
pub open spec fn fresh() -> Ledger {
    Ledger {
        store: Map::empty(),
        lost: Map::empty(),
        aggregator: AggregatorView { phase: Phase::Running, pending: Map::empty() },
    }
}

/// `store` after a commit of `pending` that meets `fate`: the counts that
/// reach the store are added to it.
pub open spec fn absorb_under(
    store: Map<Seq<char>, nat>,
    pending: Map<Seq<char>, nat>,
    fate: Fate,
) -> Map<Seq<char>, nat> {
    Map::new(
        |key: Seq<char>|
            store.contains_key(key) || (pending.contains_key(key) && reaches(fate, key)),
        |key: Seq<char>|
            if reaches(fate, key) {
                count_of(store, key) + count_of(pending, key)
            } else {
                count_of(store, key)
            },
    )
}

/// What is lost after a commit of `pending` that meets `fate`: the counts
/// that do not reach the store are added to what was lost before.
pub open spec fn forfeit_under(
    lost: Map<Seq<char>, nat>,
    pending: Map<Seq<char>, nat>,
    fate: Fate,
) -> Map<Seq<char>, nat> {
    Map::new(
        |key: Seq<char>|
            lost.contains_key(key) || (pending.contains_key(key) && !reaches(fate, key)),
        |key: Seq<char>|
            if reaches(fate, key) {
                count_of(lost, key)
            } else {
                count_of(lost, key) + count_of(pending, key)
            },
    )
}

/// `store` after every count of `pending` has been added to it.
pub open spec fn absorb(store: Map<Seq<char>, nat>, pending: Map<Seq<char>, nat>) -> Map<
    Seq<char>,
    nat,
> {
    absorb_under(store, pending, kind())
}

/// The ledger after one event whose commit, if it leads to one, meets
/// `fate`: the aggregator takes the event, and where it answers with a
/// commit each pending count goes to the store or is lost.
pub open spec fn advance_under(ledger: Ledger, event: EventView, fate: Fate) -> Ledger {
    if duty(ledger.aggregator, event) is Commit {
        Ledger {
            store: absorb_under(ledger.store, ledger.aggregator.pending, fate),
            lost: forfeit_under(ledger.lost, ledger.aggregator.pending, fate),
            aggregator: next(ledger.aggregator, event),
        }
    } else {
        Ledger { aggregator: next(ledger.aggregator, event), ..ledger }
    }
}

/// The ledger after one event, where the store accepts every request.
pub open spec fn advance(ledger: Ledger, event: EventView) -> Ledger {
    advance_under(ledger, event, kind())
}

/// The ledger after the events of `trace`, first to last, where the commit
/// to which an event leads meets the fate at the place of the event.
pub open spec fn replay_under(ledger: Ledger, trace: Seq<EventView>, fates: Seq<Fate>) -> Ledger
    recommends
        trace.len() == fates.len(),
    decreases trace.len(),
{
    if trace.len() == 0 || fates.len() == 0 {
        ledger
    } else {
        advance_under(
            replay_under(ledger, trace.drop_last(), fates.drop_last()),
            trace.last(),
            fates.last(),
        )
    }
}

/// The ledger after the events of `trace`, first to last, where the store
/// accepts every request.
pub open spec fn replay(ledger: Ledger, trace: Seq<EventView>) -> Ledger
    decreases trace.len(),
{
    if trace.len() == 0 {
        ledger
    } else {
        advance(replay(ledger, trace.drop_last()), trace.last())
    }
}

/// The views that `event` records for `key`.
pub open spec fn hits_in(event: EventView, key: Seq<char>) -> nat {
    match event {
        EventView::Received(MessageView::Increment(shortcode, hits)) => if shortcode == key {
            hits
        } else {
            0
        },
        _ => 0,
    }
}

/// The sum of all views that the events of `trace` record for `key`.
pub open spec fn tally(trace: Seq<EventView>, key: Seq<char>) -> nat
    decreases trace.len(),
{
    if trace.len() == 0 {
        0
    } else {
        tally(trace.drop_last(), key) + hits_in(trace.last(), key)
    }
}

/// The channel does not close anywhere in `trace`.
pub open spec fn stays_open(trace: Seq<EventView>) -> bool {
    forall|i: int| 0 <= i < trace.len() ==> !(#[trigger] trace[i] is Closed)
}

/// The course of a commit under a fate. A run over an empty batch is over
/// at once. A run whose transaction does not open is over after that
/// answer, with nothing committed. Any other run holds the answer to each
/// of its statements and is committed if the fate lets it.
pub proof fn lemma_run_under_fate(entries: Seq<(Seq<char>, nat)>, fate: Fate)
    ensures
        run_under(entries, fate) == (CommitRunView {
            entries,
            outcomes: if entries.len() > 0 && fate.opens {
                outcomes_under(entries, fate)
            } else {
                Seq::empty()
            },
            stage: Stage::Finished,
            committed: entries.len() > 0 && fate.opens && fate.commits,
        }),
{
    if entries.len() > 0 {
        lemma_course_of_a_run(entries, outcomes_under(entries, fate), fate.commits);
    }
}

/// What a commit does to the store and what it loses. When a batch that
/// lists the pending tally meets a fate, the store absorbs the counts that
/// reach it, and the run reports as lost the counts that do not.
pub proof fn lemma_commit_under_fate(
    store: Map<Seq<char>, nat>,
    pending: Map<Seq<char>, nat>,
    entries: Seq<(Seq<char>, nat)>,
    fate: Fate,
)
    requires
        lists(entries, pending),
    ensures
        persisted(store, run_under(entries, fate)) == absorb_under(store, pending, fate),
        forall|key: Seq<char>| #[trigger]
            amount_of(lost(run_under(entries, fate)), key) == if reaches(fate, key) {
                0
            } else {
                count_of(pending, key)
            },
{
    lemma_run_under_fate(entries, fate);
    let run = run_under(entries, fate);
    let outcomes = outcomes_under(entries, fate);
    let absorbed = absorb_under(store, pending, fate);
    assert forall|key: Seq<char>| persisted(store, run).contains_key(key) == absorbed.contains_key(
        key,
    ) by {
        if pending.contains_key(key) {
            let i = choose|i: int| 0 <= i < entries.len() && (#[trigger] entries[i]).0 == key;
            assert(outcomes[i] == !fate.refuses.contains(key));
        }
        if run.committed {
            lemma_settle_keys(store, entries, outcomes, entries.len() as int, key);
            assert(entries.take(entries.len() as int) == entries);
            assert(outcomes.take(entries.len() as int) == outcomes);
            if exists|i: int| 0 <= i < entries.len() && (#[trigger] entries[i]).0 == key
                && outcomes[i] {
                let i = choose|i: int|
                    0 <= i < entries.len() && (#[trigger] entries[i]).0 == key && outcomes[i];
                assert(pending.contains_key(entries[i].0));
            }
        }
    }
    assert forall|key: Seq<char>| absorbed.contains_key(key) implies persisted(store, run)[key]
        == absorbed[key] by {
        lemma_count_under_fate(store, pending, entries, fate, key);
    }
    assert(persisted(store, run) =~= absorbed);
    assert forall|key: Seq<char>| #[trigger]
        amount_of(lost(run), key) == if reaches(fate, key) {
            0
        } else {
            count_of(pending, key)
        } by {
        lemma_persisted_or_lost(store, run, key);
        lemma_amount_of_listed(entries, pending, key);
        lemma_count_under_fate(store, pending, entries, fate, key);
    }
}

/// The count of one key after a commit under a fate: it has grown by the
/// pending count of the key if that reaches the store, and not at all if it
/// does not.
proof fn lemma_count_under_fate(
    store: Map<Seq<char>, nat>,
    pending: Map<Seq<char>, nat>,
    entries: Seq<(Seq<char>, nat)>,
    fate: Fate,
    key: Seq<char>,
)
    requires
        lists(entries, pending),
    ensures
        count_of(persisted(store, run_under(entries, fate)), key) == if reaches(fate, key) {
            count_of(store, key) + count_of(pending, key)
        } else {
            count_of(store, key)
        },
{
    lemma_run_under_fate(entries, fate);
    let run = run_under(entries, fate);
    let outcomes = outcomes_under(entries, fate);
    if pending.contains_key(key) {
        let i = choose|i: int| 0 <= i < entries.len() && (#[trigger] entries[i]).0 == key;
        assert(outcomes[i] == !fate.refuses.contains(key));
        if run.committed {
            lemma_settle_adds_credited(store, entries, outcomes, key);
            lemma_credited_of_entry(entries, outcomes, i);
        }
    } else {
        assert forall|i: int| 0 <= i < entries.len() implies (#[trigger] entries[i]).0 != key by {
            assert(pending.contains_key(entries[i].0));
        }
        if run.committed {
            lemma_settle_adds_credited(store, entries, outcomes, key);
            lemma_credited_of_stranger(entries, outcomes, key);
        }
    }
}

/// The keys of a store after the first `n` statements of a batch: those it
/// held before and those of the accepted statements.
proof fn lemma_settle_keys(
    store: Map<Seq<char>, nat>,
    entries: Seq<(Seq<char>, nat)>,
    outcomes: Seq<bool>,
    n: int,
    key: Seq<char>,
)
    requires
        entries.len() == outcomes.len(),
        0 <= n <= entries.len(),
    ensures
        settle(store, entries.take(n), outcomes.take(n)).contains_key(key) == (store.contains_key(
            key,
        ) || exists|i: int| 0 <= i < n && (#[trigger] entries[i]).0 == key && outcomes[i]),
    decreases n,
{
    if n > 0 {
        lemma_settle_keys(store, entries, outcomes, n - 1, key);
        assert(entries.take(n).drop_last() == entries.take(n - 1));
        assert(outcomes.take(n).drop_last() == outcomes.take(n - 1));
        if entries[n - 1].0 == key && outcomes[n - 1] {
        } else if exists|i: int| 0 <= i < n && (#[trigger] entries[i]).0 == key && outcomes[i] {
            let i = choose|i: int| 0 <= i < n && (#[trigger] entries[i]).0 == key && outcomes[i];
            assert(0 <= i < n - 1);
        }
    }
}

/// A commit in which the store accepts every request makes the store absorb
/// the whole tally that the batch lists, and loses nothing.
pub proof fn lemma_full_commit_absorbs(
    store: Map<Seq<char>, nat>,
    pending: Map<Seq<char>, nat>,
    entries: Seq<(Seq<char>, nat)>,
)
    requires
        lists(entries, pending),
    ensures
        persisted(store, run_under(entries, kind())) == absorb(store, pending),
        forall|key: Seq<char>|
            count_of(absorb(store, pending), key) == count_of(store, key) + #[trigger] count_of(
                pending,
                key,
            ),
        forall|key: Seq<char>| #[trigger] amount_of(lost(run_under(entries, kind())), key) == 0,
{
    lemma_commit_under_fate(store, pending, entries, kind());
    assert forall|key: Seq<char>| #[trigger]
        amount_of(lost(run_under(entries, kind())), key) == 0 by {
        assert(reaches(kind(), key));
    }
}

/// Failure isolation. In a commit whose transaction opens and commits, a
/// key whose statement the store refuses gains nothing and has its pending
/// count reported as lost, while every key whose statement is accepted
/// gains its pending count and loses nothing.
pub proof fn lemma_a_refused_key_spares_the_others(
    ledger: Ledger,
    event: EventView,
    fate: Fate,
    refused: Seq<char>,
    spared: Seq<char>,
)
    requires
        duty(ledger.aggregator, event) is Commit,
        fate.opens,
        fate.commits,
        fate.refuses.contains(refused),
        !fate.refuses.contains(spared),
    ensures
        count_of(advance_under(ledger, event, fate).store, refused) == count_of(
            ledger.store,
            refused,
        ),
        count_of(advance_under(ledger, event, fate).lost, refused) == count_of(
            ledger.lost,
            refused,
        ) + count_of(ledger.aggregator.pending, refused),
        count_of(advance_under(ledger, event, fate).store, spared) == count_of(
            ledger.store,
            spared,
        ) + count_of(ledger.aggregator.pending, spared),
        count_of(advance_under(ledger, event, fate).lost, spared) == count_of(ledger.lost, spared),
        advance_under(ledger, event, fate).aggregator.pending == Map::<Seq<char>, nat>::empty(),
{
}

/// The balance of the counter under any fates. While the channel stays
/// open, whatever the order of messages, idle spells and flushes and
/// whatever becomes of each commit, the persisted count of a key, its lost
/// count and its pending count together have grown by exactly the views
/// recorded for it: a count is never invented, and it disappears from the
/// store only into what is reported as lost.
pub proof fn lemma_every_count_is_accounted_for(
    ledger: Ledger,
    trace: Seq<EventView>,
    fates: Seq<Fate>,
    key: Seq<char>,
)
    requires
        ledger.aggregator.phase == Phase::Running,
        stays_open(trace),
        trace.len() == fates.len(),
    ensures
        replay_under(ledger, trace, fates).aggregator.phase == Phase::Running,
        count_of(replay_under(ledger, trace, fates).store, key) + count_of(
            replay_under(ledger, trace, fates).lost,
            key,
        ) + count_of(replay_under(ledger, trace, fates).aggregator.pending, key) == count_of(
            ledger.store,
            key,
        ) + count_of(ledger.lost, key) + count_of(ledger.aggregator.pending, key) + tally(
            trace,
            key,
        ),
    decreases trace.len(),
{
    if trace.len() > 0 {
        let earlier = trace.drop_last();
        assert(stays_open(earlier)) by {
            assert forall|i: int| 0 <= i < earlier.len() implies !(#[trigger] earlier[i]
                is Closed) by {
                assert(earlier[i] == trace[i]);
            }
        }
        lemma_every_count_is_accounted_for(ledger, earlier, fates.drop_last(), key);
        assert(!(trace[trace.len() - 1] is Closed));
    }
}

/// Conservation. While the channel stays open, whatever the order of
/// messages, idle spells and flushes, the persisted count of a key and its
/// pending count together have grown by exactly the views recorded for it.
pub proof fn lemma_nothing_is_lost_or_invented(
    ledger: Ledger,
    trace: Seq<EventView>,
    key: Seq<char>,
)
    requires
        ledger.aggregator.phase == Phase::Running,
        stays_open(trace),
    ensures
        replay(ledger, trace).aggregator.phase == Phase::Running,
        count_of(replay(ledger, trace).store, key) + count_of(
            replay(ledger, trace).aggregator.pending,
            key,
        ) == count_of(ledger.store, key) + count_of(ledger.aggregator.pending, key) + tally(
            trace,
            key,
        ),
    decreases trace.len(),
{
    if trace.len() > 0 {
        let earlier = trace.drop_last();
        assert(stays_open(earlier)) by {
            assert forall|i: int| 0 <= i < earlier.len() implies !(#[trigger] earlier[i]
                is Closed) by {
                assert(earlier[i] == trace[i]);
            }
        }
        lemma_nothing_is_lost_or_invented(ledger, earlier, key);
        assert(!(trace[trace.len() - 1] is Closed));
    }
}

/// Commutative summation. After any trace on an open channel and a flush,
/// nothing is pending and the persisted count of every key has grown by the
/// sum of the views recorded for it.
pub proof fn lemma_flush_persists_the_sum(ledger: Ledger, trace: Seq<EventView>, key: Seq<char>)
    requires
        ledger.aggregator.phase == Phase::Running,
        stays_open(trace),
    ensures
        replay(
            ledger,
            trace.push(EventView::Received(MessageView::FlushTick)),
        ).aggregator.pending == Map::<Seq<char>, nat>::empty(),
        count_of(
            replay(ledger, trace.push(EventView::Received(MessageView::FlushTick))).store,
            key,
        ) == count_of(ledger.store, key) + count_of(ledger.aggregator.pending, key) + tally(
            trace,
            key,
        ),
{
    lemma_nothing_is_lost_or_invented(ledger, trace, key);
    assert(trace.push(EventView::Received(MessageView::FlushTick)).drop_last() == trace);
}

/// The sum of the views recorded for a key does not depend on the order of
/// the events: two traces that hold the same events equally often record
/// the same sum.
pub proof fn lemma_tally_ignores_order(
    first: Seq<EventView>,
    second: Seq<EventView>,
    key: Seq<char>,
)
    requires
        first.to_multiset() == second.to_multiset(),
    ensures
        tally(first, key) == tally(second, key),
    decreases first.len(),
{
    first.to_multiset_ensures();
    second.to_multiset_ensures();
    if first.len() > 0 {
        let event = first.last();
        let earlier = first.drop_last();
        assert(earlier.push(event) == first);
        earlier.to_multiset_ensures();
        assert(first.to_multiset().count(event) > 0);
        assert(second.contains(event));
        let j = choose|j: int| 0 <= j < second.len() && second[j] == event;
        let others = second.remove(j);
        assert(others.to_multiset() =~= earlier.to_multiset());
        lemma_tally_ignores_order(earlier, others, key);
        lemma_tally_without(second, j, key);
    }
}

/// Taking one event out of a trace lowers the sum by what that event records.
proof fn lemma_tally_without(trace: Seq<EventView>, j: int, key: Seq<char>)
    requires
        0 <= j < trace.len(),
    ensures
        tally(trace, key) == tally(trace.remove(j), key) + hits_in(trace[j], key),
    decreases trace.len(),
{
    if j == trace.len() - 1 {
        assert(trace.remove(j) == trace.drop_last());
    } else {
        lemma_tally_without(trace.drop_last(), j, key);
        assert(trace.remove(j).drop_last() == trace.drop_last().remove(j));
        assert(trace.remove(j).last() == trace.last());
    }
}

/// Any two interleavings of the same messages, flushed at the end, leave the
/// same persisted count for every key.
pub proof fn lemma_interleavings_agree(
    first: Seq<EventView>,
    second: Seq<EventView>,
    key: Seq<char>,
)
    requires
        stays_open(first),
        first.to_multiset() == second.to_multiset(),
    ensures
        count_of(
            replay(fresh(), first.push(EventView::Received(MessageView::FlushTick))).store,
            key,
        ) == tally(first, key),
        count_of(
            replay(fresh(), second.push(EventView::Received(MessageView::FlushTick))).store,
            key,
        ) == tally(first, key),
{
    first.to_multiset_ensures();
    second.to_multiset_ensures();
    assert(stays_open(second)) by {
        assert forall|i: int| 0 <= i < second.len() implies !(#[trigger] second[i] is Closed) by {
            assert(second.contains(second[i]));
            assert(second.to_multiset().count(second[i]) > 0);
            assert(first.to_multiset().count(second[i]) > 0);
            assert(first.contains(second[i]));
            let j = choose|j: int| 0 <= j < first.len() && first[j] == second[i];
            assert(!(first[j] is Closed));
        }
    }
    lemma_tally_ignores_order(first, second, key);
    lemma_flush_persists_the_sum(fresh(), first, key);
    lemma_flush_persists_the_sum(fresh(), second, key);
}

/// Flush idempotence. A flush with nothing pending changes neither the
/// aggregator nor the store, and the batch it hands out is empty, so that
/// its commit run is over before a transaction is opened.
pub proof fn lemma_empty_flush_changes_nothing(ledger: Ledger, action: ActionView)
    requires
        ledger.aggregator.phase == Phase::Running,
        ledger.aggregator.pending == Map::<Seq<char>, nat>::empty(),
        answers(ledger.aggregator, EventView::Received(MessageView::FlushTick), action),
    ensures
        advance(ledger, EventView::Received(MessageView::FlushTick)) == ledger,
        action == ActionView::Commit(Seq::empty()),
        wanted(start(Seq::empty())) == StoreRequestView::Done,
        persisted(ledger.store, start(Seq::empty())) == ledger.store,
{
    assert(absorb(ledger.store, ledger.aggregator.pending) =~= ledger.store);
    assert(forfeit_under(ledger.lost, ledger.aggregator.pending, kind()) =~= ledger.lost);
    match action {
        ActionView::Commit(entries) => {
            if entries.len() > 0 {
                assert(ledger.aggregator.pending.contains_key(entries[0].0));
            }
            assert(entries =~= Seq::empty());
        },
        _ => {},
    }
}

/// Bounded staleness. A record that is followed by silence is persisted
/// after one idle interval: the aggregator merges it and polls again, asks
/// for one wait of the idle interval when it finds the channel idle, and
/// commits everything that is pending when the wait is over.
pub proof fn lemma_one_idle_interval_suffices(ledger: Ledger, key: Seq<char>, hits: nat)
    requires
        ledger.aggregator.phase == Phase::Running,
    ensures
        ({
            let recorded = EventView::Received(MessageView::Increment(key, hits));
            let first = advance(ledger, recorded);
            let second = advance(first, EventView::Idle);
            let third = advance(second, EventView::Waited);
            &&& duty(ledger.aggregator, recorded) is Poll
            &&& answers(
                first.aggregator,
                EventView::Idle,
                ActionView::Wait(IDLE_INTERVAL_SECS as nat),
            )
            &&& duty(second.aggregator, EventView::Waited) is Commit
            &&& count_of(third.store, key) == count_of(ledger.store, key) + count_of(
                ledger.aggregator.pending,
                key,
            ) + hits
            &&& third.aggregator.pending == Map::<Seq<char>, nat>::empty()
        }),
{
}

/// The sum over two traces in a row is the sum of their sums.
pub proof fn lemma_tally_of_concatenation(
    first: Seq<EventView>,
    second: Seq<EventView>,
    key: Seq<char>,
)
    ensures
        tally(first + second, key) == tally(first, key) + tally(second, key),
    decreases second.len(),
{
    if second.len() == 0 {
        assert(first + second == first);
    } else {
        lemma_tally_of_concatenation(first, second.drop_last(), key);
        assert((first + second).drop_last() == first + second.drop_last());
    }
}

/// The balance of the counter. At every moment, for every key, what is
/// persisted, what is pending and what is still in flight on the channel
/// add up to what has been recorded: here `delivered` is what the
/// aggregator has taken so far and `in_flight` what was sent after it and
/// waits to be taken.
pub proof fn lemma_balance_with_messages_in_flight(
    ledger: Ledger,
    delivered: Seq<EventView>,
    in_flight: Seq<EventView>,
    key: Seq<char>,
)
    requires
        ledger.aggregator.phase == Phase::Running,
        stays_open(delivered),
    ensures
        count_of(replay(ledger, delivered).store, key) + count_of(
            replay(ledger, delivered).aggregator.pending,
            key,
        ) + tally(in_flight, key) == count_of(ledger.store, key) + count_of(
            ledger.aggregator.pending,
            key,
        ) + tally(delivered + in_flight, key),
{
    lemma_nothing_is_lost_or_invented(ledger, delivered, key);
    lemma_tally_of_concatenation(delivered, in_flight, key);
}

/// Drain on shutdown. When the channel closes, the aggregator commits at
/// once what is pending, without an idle wait, and stops once the commit
/// has been attempted: every view recorded before is then persisted.
pub proof fn lemma_shutdown_drains(ledger: Ledger, trace: Seq<EventView>, key: Seq<char>)
    requires
        ledger.aggregator.phase == Phase::Running,
        stays_open(trace),
    ensures
        duty(replay(ledger, trace).aggregator, EventView::Closed) is Commit,
        replay(ledger, trace.push(EventView::Closed)).aggregator.phase == Phase::Terminating,
        replay(ledger, trace.push(EventView::Closed).push(EventView::Committed)).aggregator == (
        AggregatorView { phase: Phase::Stopped, pending: Map::empty() }),
        count_of(
            replay(ledger, trace.push(EventView::Closed).push(EventView::Committed)).store,
            key,
        ) == count_of(ledger.store, key) + count_of(ledger.aggregator.pending, key) + tally(
            trace,
            key,
        ),
{
    lemma_nothing_is_lost_or_invented(ledger, trace, key);
    let closed = trace.push(EventView::Closed);
    assert(closed.drop_last() == trace);
    assert(closed.push(EventView::Committed).drop_last() == closed);
}

} // verus!
