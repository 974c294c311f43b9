//! Deduplicated registry of discovered opportunities, keyed by opportunity
//! id.  Duplicate broadcasts refresh a record at most; they never create a
//! second one, so downstream evaluation is triggered at most once per id.

use vstd::prelude::*;

use crate::assoc::{find_by, lemma_find_at_index, lemma_find_none, lemma_find_push,
    lemma_find_update, unique_keys};
use crate::types::OpportunityData;

verus! {

/// The key of a stored opportunity record: its opportunity id.
pub open spec fn opp_key() -> spec_fn(OpportunityData) -> Seq<char> {
    |d: OpportunityData| d.opportunity.opp_id@
}

/// What `upsert` did with an incoming record.
#[derive(Clone, Copy, PartialEq, Eq, Structural, Debug)]
pub enum UpsertOutcome {
    /// The id was unseen; the record was inserted.
    New,
    /// The id was known and the incoming record is newer; it replaced the
    /// stored one.
    Refreshed,
    /// The id was known and the incoming record is not newer; the store is
    /// unchanged.
    Ignored,
}

/// Expiring, deduplicated store of opportunities.
pub struct OpportunityStore {
    pub items: Vec<OpportunityData>,
}

impl OpportunityStore {
    /// Well-formed: at most one record per opportunity id.
    pub open spec fn wf(self) -> bool {
        unique_keys(self.items@, opp_key())
    }

    /// The stored record for opportunity `id`, if any.
    pub open spec fn spec_get(self, id: Seq<char>) -> Option<OpportunityData> {
        find_by(self.items@, opp_key(), id)
    }

    pub open spec fn spec_has(self, id: Seq<char>) -> bool {
        self.spec_get(id) is Some
    }

    pub fn new() -> (r: OpportunityStore)
        ensures
            r.wf(),
            r.items@.len() == 0,
            forall|id: Seq<char>| !r.spec_has(id),
    {
        OpportunityStore { items: Vec::new() }
    }

    pub fn len(&self) -> (r: usize)
        ensures
            r == self.items@.len(),
    {
        self.items.len()
    }

    /// The index of the record for `id`, pinned down exactly.
    fn find_index(&self, id: &String) -> (r: Option<usize>)
        ensures
            match r {
                Some(i) => {
                    &&& i < self.items@.len()
                    &&& self.items@[i as int].opportunity.opp_id@ == id@
                    &&& self.spec_get(id@) == Some(self.items@[i as int])
                },
                None => self.spec_get(id@) is None,
            },
    {
        let n = self.items.len();
        let mut i: usize = 0;
        while i < n
            invariant
                n == self.items@.len(),
                0 <= i <= n,
                forall|j: int| 0 <= j < i ==> opp_key()(self.items@[j]) != id@,
            decreases n - i,
        {
            if self.items[i].opportunity.opp_id == *id {
                proof {
                    lemma_find_at_index(self.items@, opp_key(), id@, i as int);
                }
                return Some(i);
            }
            proof {
                assert(opp_key()(self.items@[i as int]) != id@);
            }
            i = i + 1;
        }
        proof {
            lemma_find_none(self.items@, opp_key(), id@);
        }
        None
    }

    pub fn has(&self, id: &String) -> (r: bool)
        ensures
            r == self.spec_has(id@),
    {
        self.find_index(id).is_some()
    }

    /// The stored record for `id`.
    pub fn get(&self, id: &String) -> (r: Option<&OpportunityData>)
        ensures
            match r {
                Some(d) => self.spec_get(id@) == Some(*d) && d.opportunity.opp_id@ == id@,
                None => self.spec_get(id@) is None,
            },
    {
        match self.find_index(id) {
            Some(i) => Some(&self.items[i]),
            None => None,
        }
    }

    /// All stored records, newest insertions last.
    pub fn all(&self) -> (r: &Vec<OpportunityData>)
        ensures
            r == &self.items,
    {
        &self.items
    }

    /// Records an incoming opportunity.  An unseen id is inserted and
    /// reported as `New`; a known id keeps whichever record was received
    /// later, so delivering the same broadcast again never yields `New` a
    /// second time.
    pub fn upsert(&mut self, data: OpportunityData) -> (outcome: UpsertOutcome)
        requires
            old(self).wf(),
        ensures
            final(self).wf(),
            outcome is New <==> !old(self).spec_has(data.opportunity.opp_id@),
            outcome is New ==> final(self).items@ == old(self).items@.push(data),
            final(self).items@.len() == old(self).items@.len() + if outcome is New {
                1int
            } else {
                0int
            },
            (outcome is New || outcome is Refreshed) ==> final(self).spec_get(
                data.opportunity.opp_id@,
            ) == Some(data),
            outcome is Refreshed <==> (old(self).spec_has(data.opportunity.opp_id@)
                && data.received_at > old(self).spec_get(
                data.opportunity.opp_id@,
            )->0.received_at),
            outcome is Ignored ==> final(self).items@ == old(self).items@,
            forall|k: Seq<char>|
                k != data.opportunity.opp_id@ ==> final(self).spec_get(k) == old(self).spec_get(k),
    {
        let id_matches = self.find_index(&data.opportunity.opp_id);
        match id_matches {
            None => {
                proof {
                    crate::assoc::lemma_none_no_match(self.items@, opp_key(), data.opportunity.opp_id@);
                    assert forall|k: Seq<char>| true implies find_by(
                        self.items@.push(data),
                        opp_key(),
                        k,
                    ) == if k == opp_key()(data) {
                        Some(data)
                    } else {
                        find_by(self.items@, opp_key(), k)
                    } by {
                        lemma_find_push(self.items@, opp_key(), data, k);
                    }
                }
                self.items.push(data);
                UpsertOutcome::New
            },
            Some(i) => {
                if data.received_at > self.items[i].received_at {
                    proof {
                        assert forall|k: Seq<char>| true implies find_by(
                            self.items@.update(i as int, data),
                            opp_key(),
                            k,
                        ) == if k == opp_key()(data) {
                            Some(data)
                        } else {
                            find_by(self.items@, opp_key(), k)
                        } by {
                            lemma_find_update(self.items@, opp_key(), i as int, data, k);
                        }
                    }
                    self.items.set(i, data);
                    UpsertOutcome::Refreshed
                } else {
                    UpsertOutcome::Ignored
                }
            },
        }
    }
}

} // verus!
