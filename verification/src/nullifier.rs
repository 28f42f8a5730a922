//! A set of spent nullifiers, kept in memory.
//!
//! The issuer asks an oracle of the caller's whether a nullifier is fresh,
//! and the oracle marks it as spent in the same step. [`NullifierSet`] is
//! such an oracle for one process.

use vstd::prelude::*;

verus! {

/// The nullifiers that have been presented, each by its 32 bytes.
pub struct NullifierSet {
    seen: Vec<[u8; 32]>,
}

impl NullifierSet {
    /// The nullifiers that are marked as spent.
    pub closed spec fn view(self) -> Set<Seq<u8>> {
        Set::new(|n: Seq<u8>| exists|i: int| 0 <= i < self.seen@.len() && self.seen@[i]@ == n)
    }

    /// A set in which nothing is marked.
    pub fn new() -> (set: NullifierSet)
        ensures
            set@ == Set::<Seq<u8>>::empty(),
    {
        let set = NullifierSet { seen: Vec::new() };
        assert(set@ =~= Set::<Seq<u8>>::empty());
        set
    }

    /// Whether `nullifier` is marked as spent.
    pub fn contains(&self, nullifier: &[u8; 32]) -> (found: bool)
        ensures
            found == self@.contains(nullifier@),
    {
        let mut i: usize = 0;
        while i < self.seen.len()
            invariant
                i <= self.seen.len(),
                forall|j: int| 0 <= j < i ==> self.seen@[j]@ != nullifier@,
            decreases self.seen.len() - i,
        {
            if same_bytes(&self.seen[i], nullifier) {
                return true;
            }
            i += 1;
        }
        false
    }

    /// Mark `nullifier` as spent, and tell whether it was fresh: true if it
    /// is newly marked, false if it was marked before.
    pub fn check_and_mark(&mut self, nullifier: [u8; 32]) -> (fresh: bool)
        ensures
            fresh == !old(self)@.contains(nullifier@),
            final(self)@ == old(self)@.insert(nullifier@),
    {
        if self.contains(&nullifier) {
            assert(self@ =~= self@.insert(nullifier@));
            false
        } else {
            let ghost before = self@;
            let ghost old_seen = self.seen@;
            self.seen.push(nullifier);
            assert(self@ =~= before.insert(nullifier@)) by {
                assert forall|n: Seq<u8>| self@.contains(n) == before.insert(
                    nullifier@,
                ).contains(n) by {
                    if before.contains(n) {
                        let i = choose|i: int| 0 <= i < old_seen.len() && old_seen[i]@ == n;
                        assert(self.seen@[i]@ == n);
                    }
                    if n == nullifier@ {
                        assert(self.seen@[old_seen.len() as int]@ == n);
                    }
                }
            }
            true
        }
    }
}

/// Whether two arrays of 32 bytes hold the same bytes.
fn same_bytes(a: &[u8; 32], b: &[u8; 32]) -> (same: bool)
    ensures
        same == (a@ == b@),
{
    let mut i: usize = 0;
    while i < 32
        invariant
            i <= 32,
            forall|j: int| 0 <= j < i ==> a@[j] == b@[j],
        decreases 32 - i,
    {
        if a[i] != b[i] {
            return false;
        }
        i += 1;
    }
    assert(a@ =~= b@);
    true
}

} // verus!
