//! The commit run: writing one batch to the persistent store inside one
//! transaction.
//!
//! The run decides, the driver talks to the store. The driver asks the run
//! what to send next ([`CommitRun::request`]), sends it, and reports whether
//! the store accepted it ([`CommitRun::report`]).
//!
//! Failures are isolated per statement: a statement that the store refuses
//! loses the count of its own key and of no other. A transaction that cannot
//! be opened or committed loses the whole batch. Nothing is retried.

use crate::domain::clip::field::ShortCode;
use crate::web::hit_counter::pending::{credit, entries_of, PendingTotal};
use vstd::prelude::*;

verus! {

/// How far a commit run has come.
#[derive(Clone, Copy, Debug, PartialEq, Eq, Structural)]
pub enum Stage {
    /// The transaction has yet to be opened.
    Opening,
    /// The transaction is open and statements are being issued.
    Applying,
    /// Every statement has been issued and the transaction awaits its commit.
    Closing,
    /// The run is over.
    Finished,
}

/// What the driver must send to the store next.
#[derive(Debug)]
pub enum StoreRequest {
    /// Open a transaction.
    Begin,
    /// Within the transaction, increase the counter of the short code by
    /// the given amount.
    Increase(ShortCode, u32),
    /// Commit the transaction.
    Commit,
    /// Nothing: the run is over.
    Done,
}

/// A request as the contracts see it.
pub enum StoreRequestView {
    Begin,
    Increase(Seq<char>, nat),
    Commit,
    Done,
}

impl View for StoreRequest {
    type V = StoreRequestView;

    open spec fn view(&self) -> StoreRequestView {
        match self {
            StoreRequest::Begin => StoreRequestView::Begin,
            StoreRequest::Increase(shortcode, hits) => StoreRequestView::Increase(
                shortcode@,
                *hits as nat,
            ),
            StoreRequest::Commit => StoreRequestView::Commit,
            StoreRequest::Done => StoreRequestView::Done,
        }
    }
}

/// A commit run as the contracts see it.
pub struct CommitRunView {
    /// The batch, in the order in which its statements are issued.
    pub entries: Seq<(Seq<char>, nat)>,
    /// Whether the store accepted each statement issued so far.
    pub outcomes: Seq<bool>,
    pub stage: Stage,
    /// Whether the transaction was committed.
    pub committed: bool,
}

/// The run at its start: over for an empty batch, about to open a
/// transaction for any other.
pub open spec fn start(entries: Seq<(Seq<char>, nat)>) -> CommitRunView {
    CommitRunView {
        entries,
        outcomes: Seq::empty(),
        stage: if entries.len() == 0 {
            Stage::Finished
        } else {
            Stage::Opening
        },
        committed: false,
    }
}

/// What `run` wants sent to the store next.
pub open spec fn wanted(run: CommitRunView) -> StoreRequestView {
    match run.stage {
        Stage::Opening => StoreRequestView::Begin,
        Stage::Applying => StoreRequestView::Increase(
            run.entries[run.outcomes.len() as int].0,
            run.entries[run.outcomes.len() as int].1,
        ),
        Stage::Closing => StoreRequestView::Commit,
        Stage::Finished => StoreRequestView::Done,
    }
}

/// `run` after the store has answered its request, `accepted` telling
/// whether the request succeeded.
pub open spec fn after(run: CommitRunView, accepted: bool) -> CommitRunView {
    match run.stage {
        Stage::Opening => CommitRunView {
            stage: if accepted {
                Stage::Applying
            } else {
                Stage::Finished
            },
            ..run
        },
        Stage::Applying => CommitRunView {
            outcomes: run.outcomes.push(accepted),
            stage: if run.outcomes.len() + 1 == run.entries.len() {
                Stage::Closing
            } else {
                Stage::Applying
            },
            ..run
        },
        Stage::Closing => CommitRunView { stage: Stage::Finished, committed: accepted, ..run },
        Stage::Finished => run,
    }
}

/// The counts of `store` after the statements of `entries` whose outcome is
/// `true` have been applied to it.
pub open spec fn settle(
    store: Map<Seq<char>, nat>,
    entries: Seq<(Seq<char>, nat)>,
    outcomes: Seq<bool>,
) -> Map<Seq<char>, nat>
    recommends
        entries.len() == outcomes.len(),
    decreases entries.len(),
{
    if entries.len() == 0 || outcomes.len() == 0 {
        store
    } else {
        let earlier = settle(store, entries.drop_last(), outcomes.drop_last());
        if outcomes.last() {
            credit(earlier, entries.last().0, entries.last().1)
        } else {
            earlier
        }
    }
}

/// What a store that held `store` before `run` holds once `run` is over:
/// the accepted statements if the transaction was committed, and what it
/// held before if not.
pub open spec fn persisted(store: Map<Seq<char>, nat>, run: CommitRunView) -> Map<
    Seq<char>,
    nat,
> {
    if run.stage == Stage::Finished && run.committed {
        settle(store, run.entries, run.outcomes)
    } else {
        store
    }
}

/// The entries of `entries` whose outcome is `false`, in their order.
pub open spec fn refused(entries: Seq<(Seq<char>, nat)>, outcomes: Seq<bool>) -> Seq<
    (Seq<char>, nat),
>
    recommends
        entries.len() == outcomes.len(),
    decreases entries.len(),
{
    if entries.len() == 0 || outcomes.len() == 0 {
        Seq::empty()
    } else {
        let earlier = refused(entries.drop_last(), outcomes.drop_last());
        if outcomes.last() {
            earlier
        } else {
            earlier.push(entries.last())
        }
    }
}

/// The entries of a finished run that did not reach the store: the refused
/// statements if the transaction was committed, the whole batch if not.
pub open spec fn lost(run: CommitRunView) -> Seq<(Seq<char>, nat)> {
    if run.committed {
        refused(run.entries, run.outcomes)
    } else {
        run.entries
    }
}

/// One attempt to write a batch to the store.
pub struct CommitRun {
    batch: Vec<PendingTotal>,
    outcomes: Vec<bool>,
    stage: Stage,
    committed: bool,
}

impl View for CommitRun {
    type V = CommitRunView;

    closed spec fn view(&self) -> CommitRunView {
        CommitRunView {
            entries: entries_of(self.batch@),
            outcomes: self.outcomes@,
            stage: self.stage,
            committed: self.committed,
        }
    }
}

/// The stage of a run agrees with how many of its statements were answered.
pub open spec fn coherent(run: CommitRunView) -> bool {
    match run.stage {
        Stage::Opening => run.outcomes.len() == 0 && run.entries.len() > 0 && !run.committed,
        Stage::Applying => run.outcomes.len() < run.entries.len() && !run.committed,
        Stage::Closing => run.outcomes.len() == run.entries.len() && !run.committed,
        Stage::Finished => run.outcomes.len() <= run.entries.len() && (run.committed
            ==> run.outcomes.len() == run.entries.len()),
    }
}

impl CommitRun {
    #[verifier::type_invariant]
    closed spec fn well_formed(&self) -> bool {
        coherent(self@)
    }

    /// A run over `batch`. For an empty batch the run is over at once, so
    /// that no transaction is opened.
    pub fn new(batch: Vec<PendingTotal>) -> (run: Self)
        ensures
            run@ == start(entries_of(batch@)),
    {
        let stage = if batch.len() == 0 {
            Stage::Finished
        } else {
            Stage::Opening
        };
        CommitRun { batch, outcomes: Vec::new(), stage, committed: false }
    }

    /// The stage the run is in.
    pub fn stage(&self) -> (stage: Stage)
        ensures
            stage == self@.stage,
    {
        self.stage
    }

    /// Whether the run is over.
    pub fn is_finished(&self) -> (finished: bool)
        ensures
            finished == (self@.stage == Stage::Finished),
    {
        self.stage == Stage::Finished
    }

    /// What the driver must send to the store next.
    pub fn request(&self) -> (request: StoreRequest)
        ensures
            coherent(self@),
            request@ == wanted(self@),
    {
        proof {
            use_type_invariant(self);
        }
        match self.stage {
            Stage::Opening => StoreRequest::Begin,
            Stage::Applying => {
                let entry = &self.batch[self.outcomes.len()];
                StoreRequest::Increase(entry.shortcode.clone(), entry.hits)
            },
            Stage::Closing => StoreRequest::Commit,
            Stage::Finished => StoreRequest::Done,
        }
    }

    /// Takes the store's answer to the last request.
    pub fn report(&mut self, accepted: bool)
        ensures
            coherent(old(self)@),
            coherent(final(self)@),
            final(self)@ == after(old(self)@, accepted),
    {
        proof {
            use_type_invariant(&*self);
        }
        // The fields are moved out and the run is rebuilt whole at the end,
        // so that it is coherent whenever it can be seen.
        let mut taken = CommitRun::new(Vec::new());
        std::mem::swap(self, &mut taken);
        let CommitRun { batch, mut outcomes, stage, committed } = taken;
        let (stage, committed): (Stage, bool) = match stage {
            Stage::Opening => if accepted {
                (Stage::Applying, committed)
            } else {
                (Stage::Finished, committed)
            },
            Stage::Applying => {
                outcomes.push(accepted);
                if outcomes.len() == batch.len() {
                    (Stage::Closing, committed)
                } else {
                    (Stage::Applying, committed)
                }
            },
            Stage::Closing => (Stage::Finished, accepted),
            Stage::Finished => (Stage::Finished, committed),
        };
        *self = CommitRun { batch, outcomes, stage, committed };
    }

    /// The entries that have not reached the store, for the driver to log:
    /// the whole batch unless the transaction was committed, and the
    /// refused statements if it was.
    pub fn lost(&self) -> (missing: Vec<PendingTotal>)
        ensures
            entries_of(missing@) == lost(self@),
    {
        proof {
            use_type_invariant(self);
        }
        let mut missing: Vec<PendingTotal> = Vec::new();
        let mut i: usize = 0;
        while i < self.batch.len()
            invariant
                i <= self.batch.len(),
                self.committed ==> self.outcomes.len() == self.batch.len(),
                self.committed ==> entries_of(missing@) == refused(
                    entries_of(self.batch@).take(i as int),
                    self.outcomes@.take(i as int),
                ),
                !self.committed ==> entries_of(missing@) == entries_of(self.batch@).take(i as int),
            decreases self.batch.len() - i,
        {
            let ghost before = entries_of(missing@);
            let ghost entries = entries_of(self.batch@);
            let entry = &self.batch[i];
            let keep = if self.committed {
                !self.outcomes[i]
            } else {
                true
            };
            if keep {
                missing.push(PendingTotal { shortcode: entry.shortcode.clone(), hits: entry.hits });
            }
            proof {
                assert(entries.take(i + 1).drop_last() == entries.take(i as int));
                if self.committed {
                    assert(self.outcomes@.take(i + 1).drop_last() == self.outcomes@.take(i as int));
                }
                if keep {
                    assert(entries_of(missing@) == before.push(entries[i as int]));
                }
                if !self.committed {
                    assert(entries.take(i + 1) == entries.take(i as int).push(entries[i as int]));
                }
            }
            i += 1;
        }
        proof {
            assert(entries_of(self.batch@).take(i as int) == entries_of(self.batch@));
            if self.committed {
                assert(self.outcomes@.take(i as int) == self.outcomes@);
            }
        }
        missing
    }
}

} // verus!
