//! The tally of views that have been recorded but not yet handed out for
//! commit.

use crate::domain::clip::field::ShortCode;
use vstd::hash_map::StringHashMap;
use vstd::prelude::*;

verus! {

/// The count that `totals` holds for `key`: zero where it holds none.
pub open spec fn count_of(totals: Map<Seq<char>, nat>, key: Seq<char>) -> nat {
    if totals.contains_key(key) {
        totals[key]
    } else {
        0
    }
}

/// `totals` after `amount` more has been counted for `key`: the key is
/// inserted if it was absent, and its count grows by `amount` otherwise.
pub open spec fn credit(totals: Map<Seq<char>, nat>, key: Seq<char>, amount: nat) -> Map<
    Seq<char>,
    nat,
> {
    totals.insert(key, count_of(totals, key) + amount)
}

/// One entry of a batch: a short code and the views counted for it.
#[derive(Debug)]
pub struct PendingTotal {
    pub shortcode: ShortCode,
    pub hits: u32,
}

impl View for PendingTotal {
    type V = (Seq<char>, nat);

    open spec fn view(&self) -> (Seq<char>, nat) {
        (self.shortcode@, self.hits as nat)
    }
}

/// The entries of a batch as pairs of key and count.
pub open spec fn entries_of(batch: Seq<PendingTotal>) -> Seq<(Seq<char>, nat)> {
    batch.map_values(|entry: PendingTotal| entry@)
}

/// No key occurs twice among `entries`.
pub open spec fn distinct_keys(entries: Seq<(Seq<char>, nat)>) -> bool {
    forall|i: int, j: int|
        0 <= i < j < entries.len() ==> (#[trigger] entries[i]).0 != (#[trigger] entries[j]).0
}

/// `entries` lists `totals`: every entry is a key of `totals` with its count,
/// every key of `totals` has an entry, and no key has two.
pub open spec fn lists(entries: Seq<(Seq<char>, nat)>, totals: Map<Seq<char>, nat>) -> bool {
    &&& distinct_keys(entries)
    &&& forall|i: int|
        0 <= i < entries.len() ==> totals.contains_key((#[trigger] entries[i]).0)
            && totals[entries[i].0] == entries[i].1
    &&& forall|key: Seq<char>| #[trigger]
        totals.contains_key(key) ==> exists|i: int|
            0 <= i < entries.len() && (#[trigger] entries[i]).0 == key
}

/// Whether `key` is the text of one of `order`.
spec fn names(order: Seq<String>, key: Seq<char>) -> bool {
    exists|i: int| 0 <= i < order.len() && (#[trigger] order[i])@ == key
}

/// The tally of pending views, by short code.
///
/// Its view is the map from each short code that has been recorded since the
/// tally was last taken to the sum of what was recorded for it.
pub struct PendingHits {
    totals: StringHashMap<u32>,
    order: Vec<String>,
}

impl View for PendingHits {
    type V = Map<Seq<char>, nat>;

    closed spec fn view(&self) -> Map<Seq<char>, nat> {
        Map::new(
            |key: Seq<char>| self.totals@.contains_key(key),
            |key: Seq<char>| self.totals@[key] as nat,
        )
    }
}

impl PendingHits {
    /// `order` names each key of `totals` exactly once.
    #[verifier::type_invariant]
    closed spec fn well_formed(&self) -> bool {
        &&& forall|i: int, j: int|
            0 <= i < j < self.order@.len() ==> (#[trigger] self.order@[i])@ != (
            #[trigger] self.order@[j])@
        &&& forall|i: int|
            0 <= i < self.order@.len() ==> self.totals@.contains_key(
                (#[trigger] self.order@[i])@,
            )
        &&& forall|key: Seq<char>| #[trigger]
            self.totals@.contains_key(key) ==> names(self.order@, key)
    }

    /// An empty tally.
    pub fn new() -> (pending: Self)
        ensures
            pending@ == Map::<Seq<char>, nat>::empty(),
    {
        let pending = PendingHits { totals: StringHashMap::new(), order: Vec::new() };
        assert(pending@ =~= Map::<Seq<char>, nat>::empty());
        pending
    }

    /// Whether nothing is pending.
    pub fn is_empty(&self) -> (empty: bool)
        ensures
            empty == (self@ == Map::<Seq<char>, nat>::empty()),
    {
        let empty = self.totals.is_empty();
        proof {
            if empty {
                assert(self@ =~= Map::<Seq<char>, nat>::empty());
            } else {
                let key = choose|key: Seq<char>| self.totals@.contains_key(key);
                assert(self@.contains_key(key));
            }
        }
        empty
    }

    /// The pending count of `shortcode`.
    pub fn get(&self, shortcode: &ShortCode) -> (hits: u32)
        ensures
            hits == count_of(self@, shortcode@),
    {
        match self.totals.get(shortcode.as_str()) {
            Some(total) => *total,
            None => 0,
        }
    }

    /// Whether `hits` more views of `shortcode` can be counted without the
    /// pending count leaving the range of `u32`.
    pub fn has_room(&self, shortcode: &ShortCode, hits: u32) -> (room: bool)
        ensures
            room == (count_of(self@, shortcode@) + hits <= u32::MAX),
    {
        let current = self.get(shortcode);
        hits <= u32::MAX - current
    }

    /// Counts `hits` more views of `shortcode`.
    pub fn record(&mut self, shortcode: ShortCode, hits: u32)
        requires
            count_of(old(self)@, shortcode@) + hits <= u32::MAX,
        ensures
            final(self)@ == credit(old(self)@, shortcode@, hits as nat),
    {
        proof {
            use_type_invariant(&*self);
        }
        // The fields are moved out and the tally is rebuilt whole at the end,
        // so that it is well formed whenever it can be seen.
        let mut taken = PendingHits::new();
        std::mem::swap(self, &mut taken);
        let PendingHits { mut totals, mut order } = taken;
        let key = shortcode.into_inner();
        let current: Option<u32> = match totals.get(key.as_str()) {
            Some(total) => Some(*total),
            None => None,
        };
        let ghost old_totals = totals@;
        let ghost old_order = order@;
        match current {
            Some(total) => {
                totals.insert(key, total + hits);
            },
            None => {
                order.push(key.clone());
                totals.insert(key, hits);
                assert(order@[old_order.len() as int]@ == shortcode@);
            },
        }
        proof {
            assert forall|i: int| 0 <= i < order@.len() implies totals@.contains_key(
                (#[trigger] order@[i])@,
            ) by {
                if i < old_order.len() {
                    assert(old_totals.contains_key(old_order[i]@));
                }
            }
            assert forall|i: int, j: int| 0 <= i < j < order@.len() implies (#[trigger] order@[i])@
                != (#[trigger] order@[j])@ by {
                if j >= old_order.len() {
                    assert(old_totals.contains_key(old_order[i]@));
                }
            }
            assert forall|k: Seq<char>| #[trigger] totals@.contains_key(k) implies names(
                order@,
                k,
            ) by {
                if old_totals.contains_key(k) {
                    assert(names(old_order, k));
                    let i = choose|i: int|
                        0 <= i < old_order.len() && (#[trigger] old_order[i])@ == k;
                    assert(order@[i]@ == k);
                } else {
                    assert(order@[old_order.len() as int]@ == k);
                }
            }
        }
        *self = PendingHits { totals, order };
        assert(self@ =~= credit(old(self)@, shortcode@, hits as nat));
    }

    /// Hands out everything that is pending, one entry per short code, and
    /// leaves the tally empty.
    pub fn take(&mut self) -> (batch: Vec<PendingTotal>)
        ensures
            final(self)@ == Map::<Seq<char>, nat>::empty(),
            lists(entries_of(batch@), old(self)@),
    {
        proof {
            use_type_invariant(&*self);
        }
        let mut taken = PendingHits::new();
        std::mem::swap(self, &mut taken);
        let PendingHits { totals, order } = taken;
        let mut batch: Vec<PendingTotal> = Vec::new();
        let mut i: usize = 0;
        while i < order.len()
            invariant
                i <= order.len(),
                batch.len() == i,
                forall|j: int|
                    0 <= j < order@.len() ==> totals@.contains_key((#[trigger] order@[j])@),
                forall|j: int|
                    0 <= j < i ==> (#[trigger] batch@[j]).shortcode@ == order@[j]@
                        && batch@[j].hits == totals@[order@[j]@],
            decreases order.len() - i,
        {
            let key = order[i].clone();
            let hits: u32 = match totals.get(key.as_str()) {
                Some(total) => *total,
                None => 0,
            };
            batch.push(PendingTotal { shortcode: ShortCode::from(key), hits });
            i += 1;
        }
        proof {
            let entries = entries_of(batch@);
            assert forall|key: Seq<char>| #[trigger] old(self)@.contains_key(key) implies exists|
                j: int,
            |
                0 <= j < entries.len() && (#[trigger] entries[j]).0 == key by {
                assert(names(order@, key));
                let j = choose|j: int| 0 <= j < order@.len() && (#[trigger] order@[j])@ == key;
                assert(entries[j].0 == key);
            }
        }
        batch
    }
}

} // verus!
