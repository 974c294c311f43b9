//! The set of known peer node identifiers, populated by announcement
//! exchange.  Peers are never removed automatically.

use vstd::prelude::*;

verus! {

/// A duplicate-free set of peer node identifiers, in insertion order.
pub struct PeerRegistry {
    pub peers: Vec<String>,
}

impl PeerRegistry {
    /// Well-formed: no peer identifier appears twice.
    pub open spec fn wf(self) -> bool {
        forall|p: int, q: int| 0 <= p < q < self.peers@.len() ==> self.peers@[p]@ != self.peers@[q]@
    }

    /// Whether `p` is a known peer.
    pub open spec fn spec_contains(self, p: Seq<char>) -> bool {
        exists|i: int| 0 <= i < self.peers@.len() && self.peers@[i]@ == p
    }

    pub fn new() -> (r: PeerRegistry)
        ensures
            r.wf(),
            r.peers@.len() == 0,
            forall|p: Seq<char>| !r.spec_contains(p),
    {
        PeerRegistry { peers: Vec::new() }
    }

    pub fn len(&self) -> (r: usize)
        ensures
            r == self.peers@.len(),
    {
        self.peers.len()
    }

    pub fn contains(&self, p: &String) -> (r: bool)
        ensures
            r == self.spec_contains(p@),
    {
        let n = self.peers.len();
        let mut i: usize = 0;
        while i < n
            invariant
                n == self.peers@.len(),
                0 <= i <= n,
                forall|j: int| 0 <= j < i ==> self.peers@[j]@ != p@,
            decreases n - i,
        {
            if self.peers[i] == *p {
                return true;
            }
            i = i + 1;
        }
        false
    }

    /// Records `p` as a known peer; a repeat insertion changes nothing.
    pub fn insert(&mut self, p: &String) -> (added: bool)
        requires
            old(self).wf(),
        ensures
            final(self).wf(),
            added == !old(self).spec_contains(p@),
            final(self).spec_contains(p@),
            forall|q: Seq<char>|
                q != p@ ==> final(self).spec_contains(q) == old(self).spec_contains(q),
            added ==> final(self).peers@ == old(self).peers@.push(*p),
            !added ==> final(self).peers@ == old(self).peers@,
    {
        if self.contains(p) {
            false
        } else {
            self.peers.push(p.clone());
            proof {
                assert(self.peers@[self.peers@.len() - 1]@ == p@);
                assert forall|q: Seq<char>|
                    q != p@ implies final(self).spec_contains(q) == old(self).spec_contains(
                    q,
                ) by {
                    if old(self).spec_contains(q) {
                        let i = choose|i: int|
                            0 <= i < old(self).peers@.len() && old(self).peers@[i]@ == q;
                        assert(self.peers@[i]@ == q);
                    }
                    if self.spec_contains(q) {
                        let i = choose|i: int| 0 <= i < self.peers@.len() && self.peers@[i]@ == q;
                        assert(i < old(self).peers@.len());
                        assert(old(self).peers@[i]@ == q);
                    }
                }
            }
            true
        }
    }

    /// The peers in insertion order.
    pub fn all(&self) -> (r: &Vec<String>)
        ensures
            r == &self.peers,
    {
        &self.peers
    }

    /// An owned copy of the peer list, for use as a send target set.
    pub fn targets(&self) -> (r: Vec<String>)
        ensures
            r@ == self.peers@,
    {
        let r = self.peers.clone();
        proof {
            assert(r@ =~= self.peers@);
        }
        r
    }
}

} // verus!
