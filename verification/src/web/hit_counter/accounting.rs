//! What holds of a commit run: how its course follows from the answers of
//! the store, and how its outcome divides a batch between the store and
//! what is reported as lost.

use crate::web::hit_counter::commit::{
    after, coherent, lost, persisted, refused, settle, start, wanted, CommitRunView, Stage,
    StoreRequestView,
};
use crate::web::hit_counter::pending::{count_of, distinct_keys, lists};
use vstd::prelude::*;

verus! {

/// What the accepted statements of `entries` add to the count of `key`.
pub open spec fn credited(
    entries: Seq<(Seq<char>, nat)>,
    outcomes: Seq<bool>,
    key: Seq<char>,
) -> nat
    recommends
        entries.len() == outcomes.len(),
    decreases entries.len(),
{
    if entries.len() == 0 || outcomes.len() == 0 {
        0
    } else {
        let earlier = credited(entries.drop_last(), outcomes.drop_last(), key);
        if outcomes.last() && entries.last().0 == key {
            earlier + entries.last().1
        } else {
            earlier
        }
    }
}

/// `run` after the store has given `replies`, one after the other.
pub open spec fn drive(run: CommitRunView, replies: Seq<bool>) -> CommitRunView
    decreases replies.len(),
{
    if replies.len() == 0 {
        run
    } else {
        after(drive(run, replies.drop_last()), replies.last())
    }
}

/// Applying a batch raises the count of every key by what the accepted
/// statements for that key add up to.
pub proof fn lemma_settle_adds_credited(
    store: Map<Seq<char>, nat>,
    entries: Seq<(Seq<char>, nat)>,
    outcomes: Seq<bool>,
    key: Seq<char>,
)
    requires
        entries.len() == outcomes.len(),
    ensures
        count_of(settle(store, entries, outcomes), key) == count_of(store, key) + credited(
            entries,
            outcomes,
            key,
        ),
    decreases entries.len(),
{
    if entries.len() > 0 {
        lemma_settle_adds_credited(store, entries.drop_last(), outcomes.drop_last(), key);
    }
}

/// In a batch without repeated keys, the statement for a key alone decides
/// what is credited to it: the entry's count if the statement was accepted,
/// nothing if it was refused.
pub proof fn lemma_credited_of_entry(
    entries: Seq<(Seq<char>, nat)>,
    outcomes: Seq<bool>,
    i: int,
)
    requires
        distinct_keys(entries),
        entries.len() == outcomes.len(),
        0 <= i < entries.len(),
    ensures
        credited(entries, outcomes, entries[i].0) == if outcomes[i] {
            entries[i].1
        } else {
            0
        },
    decreases entries.len(),
{
    let last = entries.len() - 1;
    let shorter = entries.drop_last();
    assert(distinct_keys(shorter)) by {
        assert forall|a: int, b: int| 0 <= a < b < shorter.len() implies (#[trigger] shorter[a]).0
            != (#[trigger] shorter[b]).0 by {
            assert(entries[a].0 != entries[b].0);
        }
    }
    if i == last {
        assert forall|j: int| 0 <= j < shorter.len() implies (#[trigger] shorter[j]).0
            != entries[i].0 by {
            assert(entries[j].0 != entries[last].0);
        }
        lemma_credited_of_stranger(shorter, outcomes.drop_last(), entries[i].0);
    } else {
        assert(entries[i].0 != entries[last].0);
        assert(shorter[i] == entries[i]);
        lemma_credited_of_entry(shorter, outcomes.drop_last(), i);
    }
}

/// Nothing is credited to a key that the batch does not hold.
pub proof fn lemma_credited_of_stranger(
    entries: Seq<(Seq<char>, nat)>,
    outcomes: Seq<bool>,
    key: Seq<char>,
)
    requires
        forall|i: int| 0 <= i < entries.len() ==> (#[trigger] entries[i]).0 != key,
    ensures
        credited(entries, outcomes, key) == 0,
    decreases entries.len(),
{
    if entries.len() > 0 && outcomes.len() > 0 {
        let shorter = entries.drop_last();
        assert forall|i: int| 0 <= i < shorter.len() implies (#[trigger] shorter[i]).0 != key by {
            assert(entries[i].0 != key);
        }
        lemma_credited_of_stranger(shorter, outcomes.drop_last(), key);
        assert(entries[entries.len() - 1].0 != key);
    }
}

/// Failure isolation. When a run over a batch without repeated keys has
/// committed its transaction, each key of the batch has gained its entry's
/// count if its own statement was accepted and nothing if it was refused,
/// whatever became of the other statements.
pub proof fn lemma_failures_are_isolated(store: Map<Seq<char>, nat>, run: CommitRunView, i: int)
    requires
        coherent(run),
        distinct_keys(run.entries),
        run.stage == Stage::Finished,
        run.committed,
        0 <= i < run.entries.len(),
    ensures
        count_of(persisted(store, run), run.entries[i].0) == count_of(store, run.entries[i].0)
            + if run.outcomes[i] {
            run.entries[i].1
        } else {
            0
        },
{
    lemma_settle_adds_credited(store, run.entries, run.outcomes, run.entries[i].0);
    lemma_credited_of_entry(run.entries, run.outcomes, i);
}

/// The statements that a committed run reports as lost are those that the
/// store refused: an entry whose statement was refused is among the lost,
/// and every lost entry is an entry whose statement was refused.
pub proof fn lemma_lost_are_the_refused(run: CommitRunView)
    requires
        coherent(run),
        run.stage == Stage::Finished,
        run.committed,
    ensures
        forall|i: int|
            0 <= i < run.entries.len() && !run.outcomes[i] ==> lost(run).contains(
                #[trigger] run.entries[i],
            ),
        forall|entry: (Seq<char>, nat)| #[trigger]
            lost(run).contains(entry) ==> exists|i: int|
                0 <= i < run.entries.len() && !run.outcomes[i] && run.entries[i] == entry,
{
    lemma_refused_members(run.entries, run.outcomes);
}

/// What `refused` holds: the entries with a refused statement and no other.
proof fn lemma_refused_members(entries: Seq<(Seq<char>, nat)>, outcomes: Seq<bool>)
    requires
        entries.len() == outcomes.len(),
    ensures
        forall|i: int|
            0 <= i < entries.len() && !outcomes[i] ==> refused(entries, outcomes).contains(
                #[trigger] entries[i],
            ),
        forall|entry: (Seq<char>, nat)| #[trigger]
            refused(entries, outcomes).contains(entry) ==> exists|i: int|
                0 <= i < entries.len() && !outcomes[i] && entries[i] == entry,
    decreases entries.len(),
{
    if entries.len() > 0 {
        let last = entries.len() - 1;
        let shorter = entries.drop_last();
        let earlier = refused(shorter, outcomes.drop_last());
        lemma_refused_members(shorter, outcomes.drop_last());
        assert forall|i: int| 0 <= i < entries.len() && !outcomes[i] implies refused(
            entries,
            outcomes,
        ).contains(#[trigger] entries[i]) by {
            if i < last {
                assert(shorter[i] == entries[i]);
                assert(!outcomes.drop_last()[i]);
                assert(earlier.contains(shorter[i]));
                let j = choose|j: int| 0 <= j < earlier.len() && earlier[j] == entries[i];
                if !outcomes[last] {
                    assert(earlier.push(entries[last])[j] == entries[i]);
                }
            } else {
                assert(earlier.push(entries[last])[earlier.len() as int] == entries[i]);
            }
        }
        assert forall|entry: (Seq<char>, nat)| #[trigger]
            refused(entries, outcomes).contains(entry) implies exists|i: int|
            0 <= i < entries.len() && !outcomes[i] && entries[i] == entry by {
            let found = refused(entries, outcomes);
            let j = choose|j: int| 0 <= j < found.len() && found[j] == entry;
            if !outcomes[last] && j == earlier.len() {
                assert(entries[last] == entry);
            } else {
                assert(earlier[j] == entry);
                assert(earlier.contains(entry));
                let i = choose|i: int|
                    0 <= i < shorter.len() && !outcomes.drop_last()[i] && shorter[i] == entry;
                assert(entries[i] == entry && !outcomes[i]);
            }
        }
    }
}

/// The sum of the counts that `entries` hold for `key`.
pub open spec fn amount_of(entries: Seq<(Seq<char>, nat)>, key: Seq<char>) -> nat
    decreases entries.len(),
{
    if entries.len() == 0 {
        0
    } else {
        let earlier = amount_of(entries.drop_last(), key);
        if entries.last().0 == key {
            earlier + entries.last().1
        } else {
            earlier
        }
    }
}

/// Every count of a batch is either persisted or reported lost. When a run
/// is over, what a key has gained in the store and what the run reports as
/// lost for it add up to what the batch held for it.
pub proof fn lemma_persisted_or_lost(store: Map<Seq<char>, nat>, run: CommitRunView, key: Seq<char>)
    requires
        coherent(run),
        run.stage == Stage::Finished,
    ensures
        count_of(persisted(store, run), key) + amount_of(lost(run), key) == count_of(store, key)
            + amount_of(run.entries, key),
{
    if run.committed {
        lemma_settle_adds_credited(store, run.entries, run.outcomes, key);
        lemma_credited_and_refused(run.entries, run.outcomes, key);
    }
}

/// What a batch holds for a key is what its accepted statements credit to
/// the key and what its refused statements hold for it.
proof fn lemma_credited_and_refused(
    entries: Seq<(Seq<char>, nat)>,
    outcomes: Seq<bool>,
    key: Seq<char>,
)
    requires
        entries.len() == outcomes.len(),
    ensures
        credited(entries, outcomes, key) + amount_of(refused(entries, outcomes), key) == amount_of(
            entries,
            key,
        ),
    decreases entries.len(),
{
    if entries.len() > 0 {
        lemma_credited_and_refused(entries.drop_last(), outcomes.drop_last(), key);
        if !outcomes.last() {
            let earlier = refused(entries.drop_last(), outcomes.drop_last());
            assert(earlier.push(entries.last()).drop_last() == earlier);
        }
    }
}

/// What a batch that lists a tally holds for a key is the count of the key
/// in the tally.
pub proof fn lemma_amount_of_listed(
    entries: Seq<(Seq<char>, nat)>,
    totals: Map<Seq<char>, nat>,
    key: Seq<char>,
)
    requires
        lists(entries, totals),
    ensures
        amount_of(entries, key) == count_of(totals, key),
{
    if totals.contains_key(key) {
        let i = choose|i: int| 0 <= i < entries.len() && (#[trigger] entries[i]).0 == key;
        lemma_amount_of_entry(entries, i);
    } else {
        assert forall|i: int| 0 <= i < entries.len() implies (#[trigger] entries[i]).0 != key by {
            assert(totals.contains_key(entries[i].0));
        }
        lemma_amount_of_stranger(entries, key);
    }
}

/// In a batch without repeated keys, what the batch holds for the key of an
/// entry is the count of that entry.
proof fn lemma_amount_of_entry(entries: Seq<(Seq<char>, nat)>, i: int)
    requires
        distinct_keys(entries),
        0 <= i < entries.len(),
    ensures
        amount_of(entries, entries[i].0) == entries[i].1,
    decreases entries.len(),
{
    let last = entries.len() - 1;
    let shorter = entries.drop_last();
    assert(distinct_keys(shorter)) by {
        assert forall|a: int, b: int| 0 <= a < b < shorter.len() implies (#[trigger] shorter[a]).0
            != (#[trigger] shorter[b]).0 by {
            assert(entries[a].0 != entries[b].0);
        }
    }
    if i == last {
        assert forall|j: int| 0 <= j < shorter.len() implies (#[trigger] shorter[j]).0
            != entries[i].0 by {
            assert(entries[j].0 != entries[last].0);
        }
        lemma_amount_of_stranger(shorter, entries[i].0);
    } else {
        assert(entries[i].0 != entries[last].0);
        assert(shorter[i] == entries[i]);
        lemma_amount_of_entry(shorter, i);
    }
}

/// A batch holds nothing for a key that is not among its entries.
proof fn lemma_amount_of_stranger(entries: Seq<(Seq<char>, nat)>, key: Seq<char>)
    requires
        forall|i: int| 0 <= i < entries.len() ==> (#[trigger] entries[i]).0 != key,
    ensures
        amount_of(entries, key) == 0,
    decreases entries.len(),
{
    if entries.len() > 0 {
        let shorter = entries.drop_last();
        assert forall|i: int| 0 <= i < shorter.len() implies (#[trigger] shorter[i]).0 != key by {
            assert(entries[i].0 != key);
        }
        lemma_amount_of_stranger(shorter, key);
        assert(entries[entries.len() - 1].0 != key);
    }
}

/// A run leaves the count of every key outside its batch as it was.
pub proof fn lemma_strangers_are_untouched(
    store: Map<Seq<char>, nat>,
    run: CommitRunView,
    key: Seq<char>,
)
    requires
        coherent(run),
        forall|i: int| 0 <= i < run.entries.len() ==> (#[trigger] run.entries[i]).0 != key,
    ensures
        count_of(persisted(store, run), key) == count_of(store, key),
{
    if run.stage == Stage::Finished && run.committed {
        lemma_settle_adds_credited(store, run.entries, run.outcomes, key);
        lemma_credited_of_stranger(run.entries, run.outcomes, key);
    }
}

/// A run whose transaction was not committed leaves the store as it was and
/// loses its whole batch.
pub proof fn lemma_uncommitted_run_changes_nothing(store: Map<Seq<char>, nat>, run: CommitRunView)
    requires
        !run.committed,
    ensures
        persisted(store, run) == store,
        lost(run) == run.entries,
{
}

/// A run over an empty batch is over before it has asked anything of the
/// store, and leaves the store as it was.
pub proof fn lemma_empty_batch_opens_no_transaction(store: Map<Seq<char>, nat>)
    ensures
        start(Seq::empty()).stage == Stage::Finished,
        wanted(start(Seq::empty())) == StoreRequestView::Done,
        persisted(store, start(Seq::empty())) == store,
        lost(start(Seq::empty())) == Seq::<(Seq<char>, nat)>::empty(),
{
}

/// The course of a run over a batch that is not empty. If the transaction
/// cannot be opened the run is over at once. Otherwise it issues one
/// statement per entry, in order, whatever the store answers to each, then
/// asks for the commit, and is over after the answer to that.
pub proof fn lemma_course_of_a_run(
    entries: Seq<(Seq<char>, nat)>,
    outcomes: Seq<bool>,
    committed: bool,
)
    requires
        entries.len() > 0,
        outcomes.len() == entries.len(),
    ensures
        wanted(start(entries)) == StoreRequestView::Begin,
        drive(start(entries), seq![false]) == (CommitRunView {
            stage: Stage::Finished,
            ..start(entries)
        }),
        forall|n: int|
            0 <= n < entries.len() ==> wanted(
                #[trigger] drive(start(entries), seq![true] + outcomes.take(n)),
            ) == StoreRequestView::Increase(entries[n].0, entries[n].1),
        wanted(drive(start(entries), seq![true] + outcomes)) == StoreRequestView::Commit,
        drive(start(entries), (seq![true] + outcomes).push(committed)) == (CommitRunView {
            entries,
            outcomes,
            stage: Stage::Finished,
            committed,
        }),
{
    assert(seq![false].drop_last() == Seq::<bool>::empty());
    assert(drive(start(entries), seq![false].drop_last()) == start(entries));
    assert forall|n: int| 0 <= n < entries.len() implies wanted(
        #[trigger] drive(start(entries), seq![true] + outcomes.take(n)),
    ) == StoreRequestView::Increase(entries[n].0, entries[n].1) by {
        lemma_statements_in_order(entries, outcomes, n);
    }
    lemma_statements_in_order(entries, outcomes, entries.len() as int);
    assert(outcomes.take(entries.len() as int) == outcomes);
    let replies = (seq![true] + outcomes).push(committed);
    assert(replies.drop_last() == seq![true] + outcomes);
}

/// After the transaction was opened and the first `n` statements were
/// answered, the run holds those answers and waits to issue statement `n`,
/// or to commit if there is none.
proof fn lemma_statements_in_order(entries: Seq<(Seq<char>, nat)>, outcomes: Seq<bool>, n: int)
    requires
        entries.len() > 0,
        outcomes.len() == entries.len(),
        0 <= n <= entries.len(),
    ensures
        drive(start(entries), seq![true] + outcomes.take(n)) == (CommitRunView {
            entries,
            outcomes: outcomes.take(n),
            stage: if n == entries.len() {
                Stage::Closing
            } else {
                Stage::Applying
            },
            committed: false,
        }),
    decreases n,
{
    let replies = seq![true] + outcomes.take(n);
    if n == 0 {
        assert(replies.drop_last() == Seq::<bool>::empty());
        assert(drive(start(entries), replies.drop_last()) == start(entries));
        assert(outcomes.take(0) == Seq::<bool>::empty());
    } else {
        lemma_statements_in_order(entries, outcomes, n - 1);
        assert(replies.drop_last() == seq![true] + outcomes.take(n - 1));
        assert(replies.last() == outcomes[n - 1]);
        assert(outcomes.take(n - 1).push(outcomes[n - 1]) == outcomes.take(n));
    }
}

} // verus!
