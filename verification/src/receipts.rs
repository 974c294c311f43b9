//! Per-opportunity record of the final execution outcome and this node's
//! proceeds share.  Rebroadcasts overwrite: the last write for an
//! opportunity id wins, so there is at most one receipt per id.

use vstd::prelude::*;

use crate::assoc::{find_by, lemma_find_at_index, lemma_find_none, lemma_find_push,
    lemma_find_update, unique_keys};
use crate::types::ReceiptData;

verus! {

/// The key of a stored receipt record: its opportunity id.
pub open spec fn receipt_key() -> spec_fn(ReceiptData) -> Seq<char> {
    |d: ReceiptData| d.receipt.opp_id@
}

/// Store of settlement receipts, one per opportunity id.
pub struct ReceiptStore {
    pub items: Vec<ReceiptData>,
}

impl ReceiptStore {
    /// Well-formed: at most one receipt per opportunity id.
    pub open spec fn wf(self) -> bool {
        unique_keys(self.items@, receipt_key())
    }

    /// The stored receipt record for opportunity `id`, if any.
    pub open spec fn spec_get(self, id: Seq<char>) -> Option<ReceiptData> {
        find_by(self.items@, receipt_key(), id)
    }

    pub open spec fn spec_has(self, id: Seq<char>) -> bool {
        self.spec_get(id) is Some
    }

    pub fn new() -> (r: ReceiptStore)
        ensures
            r.wf(),
            r.items@.len() == 0,
            forall|id: Seq<char>| !r.spec_has(id),
    {
        ReceiptStore { items: Vec::new() }
    }

    pub fn len(&self) -> (r: usize)
        ensures
            r == self.items@.len(),
    {
        self.items.len()
    }

    /// The index of the record for `id`, pinned down exactly.
    fn find_index(&self, id: &String) -> (r: Option<usize>)
        ensures
            match r {
                Some(i) => {
                    &&& i < self.items@.len()
                    &&& self.items@[i as int].receipt.opp_id@ == id@
                    &&& self.spec_get(id@) == Some(self.items@[i as int])
                },
                None => self.spec_get(id@) is None,
            },
    {
        let n = self.items.len();
        let mut i: usize = 0;
        while i < n
            invariant
                n == self.items@.len(),
                0 <= i <= n,
                forall|j: int| 0 <= j < i ==> self.items@[j].receipt.opp_id@ != id@,
            decreases n - i,
        {
            if self.items[i].receipt.opp_id == *id {
                proof {
                    lemma_find_at_index(self.items@, receipt_key(), id@, i as int);
                }
                return Some(i);
            }
            i = i + 1;
        }
        proof {
            lemma_find_none(self.items@, receipt_key(), id@);
        }
        None
    }

    pub fn has(&self, id: &String) -> (r: bool)
        ensures
            r == self.spec_has(id@),
    {
        self.find_index(id).is_some()
    }

    /// The stored receipt record for `id`.
    pub fn get(&self, id: &String) -> (r: Option<&ReceiptData>)
        ensures
            match r {
                Some(d) => self.spec_get(id@) == Some(*d),
                None => self.spec_get(id@) is None,
            },
    {
        match self.find_index(id) {
            Some(i) => Some(&self.items[i]),
            None => None,
        }
    }

    /// All stored receipt records.
    pub fn all(&self) -> (r: &Vec<ReceiptData>)
        ensures
            r == &self.items,
    {
        &self.items
    }

    /// Records a receipt; an existing receipt for the same opportunity id
    /// is overwritten (last write wins).  Receipts for other ids are
    /// untouched.
    pub fn insert(&mut self, data: ReceiptData)
        requires
            old(self).wf(),
        ensures
            final(self).wf(),
            final(self).spec_get(data.receipt.opp_id@) == Some(data),
            forall|k: Seq<char>|
                k != data.receipt.opp_id@ ==> final(self).spec_get(k) == old(self).spec_get(k),
            final(self).items@.len() == old(self).items@.len() + if old(self).spec_has(
                data.receipt.opp_id@,
            ) {
                0int
            } else {
                1int
            },
    {
        match self.find_index(&data.receipt.opp_id) {
            Some(i) => {
                proof {
                    assert forall|k: Seq<char>| true implies find_by(
                        self.items@.update(i as int, data),
                        receipt_key(),
                        k,
                    ) == if k == data.receipt.opp_id@ {
                        Some(data)
                    } else {
                        find_by(self.items@, receipt_key(), k)
                    } by {
                        lemma_find_update(self.items@, receipt_key(), i as int, data, k);
                    }
                }
                self.items.set(i, data);
            },
            None => {
                proof {
                    crate::assoc::lemma_none_no_match(self.items@, receipt_key(), data.receipt.opp_id@);
                    assert forall|k: Seq<char>| true implies find_by(
                        self.items@.push(data),
                        receipt_key(),
                        k,
                    ) == if k == data.receipt.opp_id@ {
                        Some(data)
                    } else {
                        find_by(self.items@, receipt_key(), k)
                    } by {
                        lemma_find_push(self.items@, receipt_key(), data, k);
                    }
                }
                self.items.push(data);
            },
        }
    }
}

} // verus!
