//! Per-opportunity lists of capital commitments from peers.
//!
//! A later intent from the same peer for the same opportunity replaces the
//! earlier one instead of accumulating, and the best intent is the one with
//! the greatest committed amount, ties broken by earliest receipt order.

use vstd::prelude::*;

use crate::assoc::{find_by, index_by, lemma_find_at_index, lemma_find_none, lemma_find_push,
    lemma_find_update, lemma_none_no_match, unique_keys};
use crate::types::IntentData;

verus! {

/// All intents received for one opportunity, in receipt order.
pub struct IntentList {
    pub opp_id: String,
    pub intents: Vec<IntentData>,
}

/// The key of an intent list: its opportunity id.
pub open spec fn list_key() -> spec_fn(IntentList) -> Seq<char> {
    |l: IntentList| l.opp_id@
}

/// The key of a stored intent within a list: the submitting peer.
pub open spec fn submitter_key() -> spec_fn(IntentData) -> Seq<char> {
    |d: IntentData| d.submitter_node@
}

/// `s[i]` is the best intent of `s`: no intent commits more, and every
/// earlier intent commits strictly less.
pub open spec fn is_best_at(s: Seq<IntentData>, i: int) -> bool {
    &&& 0 <= i < s.len()
    &&& forall|j: int| 0 <= j < s.len() ==> s[j].max_amount <= s[i].max_amount
    &&& forall|j: int| 0 <= j < i ==> s[j].max_amount < s[i].max_amount
}

/// The index of the best intent of `intents`: the greatest committed
/// amount, ties broken in favour of the intent received first.  `None`
/// exactly when the list is empty.
pub fn best_intent_index(intents: &Vec<IntentData>) -> (r: Option<usize>)
    ensures
        r is Some <==> intents@.len() > 0,
        r is Some ==> is_best_at(intents@, r->0 as int),
{
    let n = intents.len();
    if n == 0 {
        return None;
    }
    let mut best: usize = 0;
    let mut j: usize = 1;
    while j < n
        invariant
            n == intents@.len(),
            0 <= best < j <= n,
            forall|m: int| 0 <= m < j ==> intents@[m].max_amount
                <= intents@[best as int].max_amount,
            forall|m: int| 0 <= m < best ==> intents@[m].max_amount
                < intents@[best as int].max_amount,
        decreases n - j,
    {
        if intents[j].max_amount > intents[best].max_amount {
            best = j;
        }
        j = j + 1;
    }
    Some(best)
}

/// Append-only store of intents, grouped by opportunity id.
pub struct IntentStore {
    pub lists: Vec<IntentList>,
}

impl IntentStore {
    /// Well-formed: one list per opportunity, and within a list at most one
    /// intent per submitting peer.
    pub open spec fn wf(self) -> bool {
        &&& unique_keys(self.lists@, list_key())
        &&& forall|i: int|
            0 <= i < self.lists@.len() ==> unique_keys(
                #[trigger] self.lists@[i].intents@,
                submitter_key(),
            )
    }

    /// The intents recorded for opportunity `opp`, in receipt order.
    pub open spec fn spec_intents(self, opp: Seq<char>) -> Seq<IntentData> {
        match find_by(self.lists@, list_key(), opp) {
            Some(l) => l.intents@,
            None => Seq::<IntentData>::empty(),
        }
    }

    pub fn new() -> (r: IntentStore)
        ensures
            r.wf(),
            r.lists@.len() == 0,
            forall|opp: Seq<char>| r.spec_intents(opp).len() == 0,
    {
        IntentStore { lists: Vec::new() }
    }

    /// The number of opportunities with at least one recorded intent.
    pub fn len(&self) -> (r: usize)
        ensures
            r == self.lists@.len(),
    {
        self.lists.len()
    }

    /// The index of the list for `opp`, pinned down exactly.
    fn find_list(&self, opp: &String) -> (r: Option<usize>)
        ensures
            match r {
                Some(i) => {
                    &&& i < self.lists@.len()
                    &&& self.lists@[i as int].opp_id@ == opp@
                    &&& find_by(self.lists@, list_key(), opp@) == Some(self.lists@[i as int])
                },
                None => find_by(self.lists@, list_key(), opp@) is None,
            },
    {
        let n = self.lists.len();
        let mut i: usize = 0;
        while i < n
            invariant
                n == self.lists@.len(),
                0 <= i <= n,
                forall|j: int| 0 <= j < i ==> self.lists@[j].opp_id@ != opp@,
            decreases n - i,
        {
            if self.lists[i].opp_id == *opp {
                proof {
                    lemma_find_at_index(self.lists@, list_key(), opp@, i as int);
                }
                return Some(i);
            }
            i = i + 1;
        }
        proof {
            lemma_find_none(self.lists@, list_key(), opp@);
        }
        None
    }

    /// The intents recorded for `opp`, if any.
    pub fn get(&self, opp: &String) -> (r: Option<&Vec<IntentData>>)
        ensures
            match r {
                Some(v) => v@ == self.spec_intents(opp@) && v@.len() > 0,
                None => self.spec_intents(opp@).len() == 0,
            },
    {
        match self.find_list(opp) {
            Some(i) => {
                if self.lists[i].intents.len() > 0 {
                    Some(&self.lists[i].intents)
                } else {
                    None
                }
            },
            None => None,
        }
    }

    /// Records an intent for `opp`.  A repeat submission from the same peer
    /// replaces its earlier intent in place; a new peer's intent is
    /// appended.  Intents for other opportunities are untouched.
    pub fn upsert(&mut self, opp: &String, data: IntentData)
        requires
            old(self).wf(),
        ensures
            final(self).wf(),
            ({
                let before = old(self).spec_intents(opp@);
                let at = index_by(before, submitter_key(), data.submitter_node@);
                &&& at >= 0 ==> at < before.len()
                &&& final(self).spec_intents(opp@) == if at >= 0 {
                    before.update(at, data)
                } else {
                    before.push(data)
                }
            }),
            final(self).spec_intents(opp@).len() > 0,
            forall|k: Seq<char>|
                k != opp@ ==> final(self).spec_intents(k) == old(self).spec_intents(k),
    {
        match self.find_list(opp) {
            Some(li) => {
                let mut intents = self.lists[li].intents.clone();
                proof {
                    assert(intents@ =~= self.lists@[li as int].intents@);
                }
                let n = intents.len();
                let mut j: usize = 0;
                let mut found: Option<usize> = None;
                while j < n
                    invariant
                        n == intents@.len(),
                        0 <= j <= n,
                        match found {
                            Some(f) => {
                                &&& f < j <= n
                                &&& intents@[f as int].submitter_node@ == data.submitter_node@
                                &&& forall|m: int|
                                    0 <= m < f ==> intents@[m].submitter_node@
                                        != data.submitter_node@
                            },
                            None => forall|m: int|
                                0 <= m < j ==> intents@[m].submitter_node@
                                    != data.submitter_node@,
                        },
                    decreases n - j,
                {
                    if found.is_none() && intents[j].submitter_node == data.submitter_node {
                        found = Some(j);
                    }
                    j = j + 1;
                }
                let ghost before = intents@;
                match found {
                    Some(f) => {
                        proof {
                            lemma_find_at_index(
                                before,
                                submitter_key(),
                                data.submitter_node@,
                                f as int,
                            );
                        }
                        intents.set(f, data);
                    },
                    None => {
                        proof {
                            lemma_find_none(before, submitter_key(), data.submitter_node@);
                        }
                        intents.push(data);
                    },
                }
                let new_list = IntentList { opp_id: self.lists[li].opp_id.clone(), intents };
                proof {
                    assert forall|k: Seq<char>| true implies find_by(
                        self.lists@.update(li as int, new_list),
                        list_key(),
                        k,
                    ) == if k == new_list.opp_id@ {
                        Some(new_list)
                    } else {
                        find_by(self.lists@, list_key(), k)
                    } by {
                        lemma_find_update(self.lists@, list_key(), li as int, new_list, k);
                    }
                }
                self.lists.set(li, new_list);
            },
            None => {
                proof {
                    lemma_none_no_match(self.lists@, list_key(), opp@);
                }
                let mut intents: Vec<IntentData> = Vec::new();
                intents.push(data);
                let new_list = IntentList { opp_id: opp.clone(), intents };
                proof {
                    assert forall|k: Seq<char>| true implies find_by(
                        self.lists@.push(new_list),
                        list_key(),
                        k,
                    ) == if k == new_list.opp_id@ {
                        Some(new_list)
                    } else {
                        find_by(self.lists@, list_key(), k)
                    } by {
                        lemma_find_push(self.lists@, list_key(), new_list, k);
                    }
                    assert(old(self).spec_intents(opp@) =~= Seq::<IntentData>::empty());
                    assert(new_list.intents@ =~= Seq::<IntentData>::empty().push(data));
                }
                self.lists.push(new_list);
            },
        }
    }

    /// Selects the best intent for `opp`: the greatest committed amount,
    /// ties broken in favour of the intent received first.  Returns `None`
    /// exactly when no intent is recorded for `opp`.
    pub fn select_best(&self, opp: &String) -> (r: Option<IntentData>)
        ensures
            r is Some <==> self.spec_intents(opp@).len() > 0,
            r is Some ==> exists|i: int|
                #![trigger self.spec_intents(opp@)[i]]
                self.spec_intents(opp@)[i] == r->0 && is_best_at(self.spec_intents(opp@), i),
    {
        match self.find_list(opp) {
            Some(li) => {
                match best_intent_index(&self.lists[li].intents) {
                    Some(best) => Some(self.lists[li].intents[best].clone()),
                    None => None,
                }
            },
            None => None,
        }
    }
}

} // verus!
