//! Per-asset capital ledger: available and committed balances with atomic
//! reserve / release / deposit, the financial heart of the node.
//!
//! The safety property maintained at all times is that for every asset the
//! committed amount never exceeds the available amount
//! ([`lemma_capital_safety`]).

use vstd::prelude::*;

use crate::assoc::{find_by, lemma_find_at_index, lemma_find_is_entry, lemma_find_none,
    lemma_find_push, lemma_find_update, lemma_none_no_match};
use crate::types::{ApiError, InsufficientCapital};

verus! {

/// This node's capital in one asset.
pub struct AssetEntry {
    pub asset: String,
    pub available: u64,
    pub committed: u64,
}

/// The key of a ledger entry: its asset identifier.
pub open spec fn asset_key() -> spec_fn(AssetEntry) -> Seq<char> {
    |e: AssetEntry| e.asset@
}

/// The first entry of `s` whose asset matches `asset`, if any.
pub open spec fn lookup(s: Seq<AssetEntry>, asset: Seq<char>) -> Option<AssetEntry> {
    find_by(s, asset_key(), asset)
}

/// Per-asset available/committed balance tracking with atomic
/// reserve / release / deposit.
pub struct CapitalLedger {
    pub entries: Vec<AssetEntry>,
}

impl CapitalLedger {
    /// Well-formed: each asset appears at most once, and committed capital
    /// never exceeds available capital.
    pub open spec fn wf(self) -> bool {
        &&& forall|p: int, q: int|
            0 <= p < q < self.entries@.len() ==> self.entries@[p].asset@
                != self.entries@[q].asset@
        &&& forall|i: int|
            0 <= i < self.entries@.len() ==> #[trigger] self.entries@[i].committed
                <= self.entries@[i].available
    }

    /// The available balance recorded for `asset` (zero if untracked).
    pub open spec fn spec_available(self, asset: Seq<char>) -> u64 {
        match lookup(self.entries@, asset) {
            Some(e) => e.available,
            None => 0,
        }
    }

    /// The committed balance recorded for `asset` (zero if untracked).
    pub open spec fn spec_committed(self, asset: Seq<char>) -> u64 {
        match lookup(self.entries@, asset) {
            Some(e) => e.committed,
            None => 0,
        }
    }

    /// Both balances of `asset` agree between `self` and `other`.
    pub open spec fn agrees_at(self, other: CapitalLedger, asset: Seq<char>) -> bool {
        self.spec_available(asset) == other.spec_available(asset)
            && self.spec_committed(asset) == other.spec_committed(asset)
    }

    pub fn new() -> (r: CapitalLedger)
        ensures
            r.wf(),
            forall|a: Seq<char>| r.spec_available(a) == 0 && r.spec_committed(a) == 0,
    {
        CapitalLedger { entries: Vec::new() }
    }

    /// The index of the entry for `asset`, pinned down exactly.
    fn find_index(&self, asset: &String) -> (r: Option<usize>)
        ensures
            match r {
                Some(i) => {
                    &&& i < self.entries@.len()
                    &&& self.entries@[i as int].asset@ == asset@
                    &&& forall|j: int| 0 <= j < i ==> self.entries@[j].asset@ != asset@
                    &&& lookup(self.entries@, asset@) == Some(self.entries@[i as int])
                },
                None => lookup(self.entries@, asset@) is None,
            },
    {
        let n = self.entries.len();
        let mut i: usize = 0;
        while i < n
            invariant
                n == self.entries@.len(),
                0 <= i <= n,
                forall|j: int| 0 <= j < i ==> self.entries@[j].asset@ != asset@,
            decreases n - i,
        {
            if self.entries[i].asset == *asset {
                proof {
                    lemma_find_at_index(self.entries@, asset_key(), asset@, i as int);
                }
                return Some(i);
            }
            i = i + 1;
        }
        proof {
            lemma_find_none(self.entries@, asset_key(), asset@);
        }
        None
    }

    /// Available balance of `asset`; zero when the asset is untracked.
    pub fn available_of(&self, asset: &String) -> (r: u64)
        ensures
            r == self.spec_available(asset@),
    {
        match self.find_index(asset) {
            Some(i) => self.entries[i].available,
            None => 0,
        }
    }

    /// Committed balance of `asset`; zero when the asset is untracked.
    pub fn committed_of(&self, asset: &String) -> (r: u64)
        ensures
            r == self.spec_committed(asset@),
    {
        match self.find_index(asset) {
            Some(i) => self.entries[i].committed,
            None => 0,
        }
    }

    /// Uncommitted capital of `asset`: available minus committed.
    pub fn free_of(&self, asset: &String) -> (r: u64)
        requires
            self.wf(),
        ensures
            r == self.spec_available(asset@) - self.spec_committed(asset@),
    {
        match self.find_index(asset) {
            Some(i) => self.entries[i].available - self.entries[i].committed,
            None => 0,
        }
    }

    /// The tracked assets, in ledger order.
    pub fn assets(&self) -> (r: Vec<String>)
        ensures
            r@.len() == self.entries@.len(),
            forall|i: int| 0 <= i < r@.len() ==> r@[i]@ == self.entries@[i].asset@,
    {
        let mut r: Vec<String> = Vec::new();
        let n = self.entries.len();
        let mut i: usize = 0;
        while i < n
            invariant
                n == self.entries@.len(),
                0 <= i <= n,
                r@.len() == i,
                forall|j: int| 0 <= j < i ==> r@[j]@ == self.entries@[j].asset@,
            decreases n - i,
        {
            r.push(self.entries[i].asset.clone());
            i = i + 1;
        }
        r
    }

    /// Adds `amount` to the available balance of `asset`; used by manual
    /// top-up.  Fails only when the balance would overflow, in which case
    /// the ledger is unchanged.
    pub fn deposit(&mut self, asset: &String, amount: u64) -> (r: Result<(), ApiError>)
        requires
            old(self).wf(),
        ensures
            final(self).wf(),
            match r {
                Ok(()) => {
                    &&& old(self).spec_available(asset@) + amount <= u64::MAX
                    &&& final(self).spec_available(asset@) == old(self).spec_available(asset@)
                        + amount
                    &&& final(self).spec_committed(asset@) == old(self).spec_committed(asset@)
                    &&& forall|a: Seq<char>| a != asset@ ==> final(self).agrees_at(*old(self), a)
                },
                Err(e) => {
                    &&& e is BalanceOverflow
                    &&& old(self).spec_available(asset@) + amount > u64::MAX
                    &&& *final(self) == *old(self)
                },
            },
    {
        match self.find_index(asset) {
            Some(i) => {
                let e_available = self.entries[i].available;
                let e_committed = self.entries[i].committed;
                if amount > u64::MAX - e_available {
                    return Err(ApiError::BalanceOverflow);
                }
                let entry = AssetEntry {
                    asset: asset.clone(),
                    available: e_available + amount,
                    committed: e_committed,
                };
                proof {
                    lemma_find_update(self.entries@, asset_key(), i as int, entry, asset@);
                    assert(forall|a: Seq<char>|
                        a != asset@ ==> lookup(self.entries@.update(i as int, entry), a)
                            == lookup(self.entries@, a)) by {
                        assert forall|a: Seq<char>| a != asset@ implies lookup(
                            self.entries@.update(i as int, entry),
                            a,
                        ) == lookup(self.entries@, a) by {
                            lemma_find_update(self.entries@, asset_key(), i as int, entry, a);
                        }
                    }
                }
                self.entries.set(i, entry);
                Ok(())
            },
            None => {
                let entry = AssetEntry { asset: asset.clone(), available: amount, committed: 0 };
                proof {
                    lemma_none_no_match(self.entries@, asset_key(), asset@);
                    assert forall|a: Seq<char>| true implies lookup(
                        self.entries@.push(entry),
                        a,
                    ) == if a == entry.asset@ {
                        Some(entry)
                    } else {
                        lookup(self.entries@, a)
                    } by {
                        lemma_find_push(self.entries@, asset_key(), entry, a);
                    }
                }
                self.entries.push(entry);
                Ok(())
            },
        }
    }

    /// Reserves `amount` of `asset` for an intent.  Succeeds exactly when
    /// the uncommitted capital covers `amount`; on success the committed
    /// balance grows by `amount`, on failure nothing changes.
    pub fn reserve(&mut self, asset: &String, amount: u64) -> (r: Result<(), InsufficientCapital>)
        requires
            old(self).wf(),
        ensures
            final(self).wf(),
            r is Ok <==> old(self).spec_available(asset@) - old(self).spec_committed(asset@)
                >= amount,
            r is Ok ==> {
                &&& final(self).spec_committed(asset@) == old(self).spec_committed(asset@)
                    + amount
                &&& final(self).spec_available(asset@) == old(self).spec_available(asset@)
                &&& forall|a: Seq<char>| a != asset@ ==> final(self).agrees_at(*old(self), a)
            },
            r is Err ==> *final(self) == *old(self),
    {
        match self.find_index(asset) {
            Some(i) => {
                let e_available = self.entries[i].available;
                let e_committed = self.entries[i].committed;
                if e_available - e_committed >= amount {
                    let entry = AssetEntry {
                        asset: asset.clone(),
                        available: e_available,
                        committed: e_committed + amount,
                    };
                    proof {
                        assert forall|a: Seq<char>| true implies lookup(
                            self.entries@.update(i as int, entry),
                            a,
                        ) == if a == entry.asset@ {
                            Some(entry)
                        } else {
                            lookup(self.entries@, a)
                        } by {
                            lemma_find_update(self.entries@, asset_key(), i as int, entry, a);
                        }
                    }
                    self.entries.set(i, entry);
                    Ok(())
                } else {
                    Err(InsufficientCapital)
                }
            },
            None => {
                if amount == 0 {
                    Ok(())
                } else {
                    Err(InsufficientCapital)
                }
            },
        }
    }

    /// Releases `amount` of committed `asset`, saturating at zero so that
    /// duplicate release messages cannot drive the balance negative.
    pub fn release(&mut self, asset: &String, amount: u64)
        requires
            old(self).wf(),
        ensures
            final(self).wf(),
            final(self).spec_committed(asset@) == if amount >= old(self).spec_committed(asset@) {
                0u64
            } else {
                (old(self).spec_committed(asset@) - amount) as u64
            },
            final(self).spec_available(asset@) == old(self).spec_available(asset@),
            forall|a: Seq<char>| a != asset@ ==> final(self).agrees_at(*old(self), a),
    {
        match self.find_index(asset) {
            Some(i) => {
                let e_available = self.entries[i].available;
                let e_committed = self.entries[i].committed;
                let new_committed = if amount >= e_committed {
                    0
                } else {
                    e_committed - amount
                };
                let entry = AssetEntry {
                    asset: asset.clone(),
                    available: e_available,
                    committed: new_committed,
                };
                proof {
                    assert forall|a: Seq<char>| true implies lookup(
                        self.entries@.update(i as int, entry),
                        a,
                    ) == if a == entry.asset@ {
                        Some(entry)
                    } else {
                        lookup(self.entries@, a)
                    } by {
                        lemma_find_update(self.entries@, asset_key(), i as int, entry, a);
                    }
                }
                self.entries.set(i, entry);
            },
            None => {},
        }
    }
}

/// Capital safety: in a well-formed ledger, every asset's committed balance
/// is non-negative and never exceeds its available balance — after any
/// sequence of `reserve`, `release` and `deposit` calls, since each of them
/// preserves well-formedness.
pub proof fn lemma_capital_safety(l: CapitalLedger, asset: Seq<char>)
    requires
        l.wf(),
    ensures
        0 <= l.spec_committed(asset) <= l.spec_available(asset),
{
    if lookup(l.entries@, asset) is Some {
        lemma_find_is_entry(l.entries@, asset_key(), asset);
    }
}

} // verus!
