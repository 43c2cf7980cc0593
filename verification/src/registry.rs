//! The table of pending swaps, keyed by the commitment that identifies each.

use crate::error::Error;
use crate::primitives::{AccountId, BlockNumber, HashedProof};
use vstd::prelude::*;

verus! {

/// Pending atomic swap operation.
#[derive(Debug, PartialEq, Eq)]
pub struct PendingSwap<A> {
    /// Source of the swap.
    pub source: AccountId,
    /// Action of this swap.
    pub action: A,
    /// End block of the lock.
    pub end_block: BlockNumber,
}

impl<A: Clone> Clone for PendingSwap<A> {
    /// A copy with the same source and end block, and a clone of the action.
    fn clone(&self) -> (copy: Self)
        ensures
            copy.source == self.source,
            copy.end_block == self.end_block,
    {
        PendingSwap { source: self.source, action: self.action.clone(), end_block: self.end_block }
    }
}

impl<A> PendingSwap<A> {
    /// A swap has expired once the current time has reached its end block.
    pub open spec fn expired_at(&self, now: BlockNumber) -> bool {
        now >= self.end_block
    }

    /// Whether `caller` may cancel the swap at time `now`: its source may at
    /// any time, anybody else once it has expired.
    pub open spec fn cancellable_by(&self, caller: AccountId, now: BlockNumber) -> bool {
        caller == self.source || self.expired_at(now)
    }

    /// Whether the swap has expired at time `now`.
    pub fn is_expired(&self, now: BlockNumber) -> (expired: bool)
        ensures
            expired == self.expired_at(now),
    {
        now >= self.end_block
    }

    /// Whether `caller` may cancel the swap at time `now`.
    pub fn may_be_cancelled_by(&self, caller: &AccountId, now: BlockNumber) -> (allowed: bool)
        ensures
            allowed == self.cancellable_by(*caller, now),
    {
        *caller == self.source || now >= self.end_block
    }
}

/// Whether two commitments are the same, byte for byte.
pub fn same_proof(a: &HashedProof, b: &HashedProof) -> (same: bool)
    ensures
        same == (*a == *b),
{
    let mut i: usize = 0;
    while i < 32
        invariant
            i <= 32,
            forall|j: int| 0 <= j < i ==> a[j] == b[j],
        decreases 32 - i,
    {
        if a[i] != b[i] {
            return false;
        }
        i += 1;
    }
    assert(*a =~= *b);
    true
}

/// The pending swaps: at most one for each commitment.
pub struct SwapRegistry<A> {
    records: Vec<(HashedProof, PendingSwap<A>)>,
}

impl<A> View for SwapRegistry<A> {
    type V = Map<HashedProof, PendingSwap<A>>;

    closed spec fn view(&self) -> Map<HashedProof, PendingSwap<A>> {
        Map::new(
            |p: HashedProof| self.holds(p),
            |p: HashedProof| self.records@[self.index_of(p)].1,
        )
    }
}

impl<A> SwapRegistry<A> {
    #[verifier::type_invariant]
    spec fn distinct(self) -> bool {
        forall|i: int, j: int|
            0 <= i < j < self.records@.len() ==> self.records@[i].0 != self.records@[j].0
    }

    spec fn holds(&self, p: HashedProof) -> bool {
        exists|i: int| 0 <= i < self.records@.len() && self.records@[i].0 == p
    }

    spec fn index_of(&self, p: HashedProof) -> int {
        choose|i: int| 0 <= i < self.records@.len() && self.records@[i].0 == p
    }

    /// A registry without pending swaps.
    pub fn new() -> (registry: Self)
        ensures
            registry@ == Map::<HashedProof, PendingSwap<A>>::empty(),
    {
        let registry = SwapRegistry { records: Vec::new() };
        assert(registry@ =~= Map::<HashedProof, PendingSwap<A>>::empty());
        registry
    }

    fn position(&self, hashed_proof: &HashedProof) -> (at: Option<usize>)
        ensures
            match at {
                Some(i) => i < self.records@.len() && self.records@[i as int].0 == *hashed_proof
                    && self.holds(*hashed_proof) && self.index_of(*hashed_proof) == i,
                None => !self.holds(*hashed_proof),
            },
    {
        proof {
            use_type_invariant(self);
        }
        let mut i: usize = 0;
        while i < self.records.len()
            invariant
                i <= self.records@.len(),
                self.distinct(),
                forall|j: int| 0 <= j < i ==> self.records@[j].0 != *hashed_proof,
            decreases self.records@.len() - i,
        {
            if same_proof(&self.records[i].0, hashed_proof) {
                return Some(i);
            }
            i += 1;
        }
        None
    }

    /// Whether a swap is pending under `hashed_proof`.
    pub fn contains(&self, hashed_proof: &HashedProof) -> (pending: bool)
        ensures
            pending == self@.contains_key(*hashed_proof),
    {
        self.position(hashed_proof).is_some()
    }

    /// The swap pending under `hashed_proof`, if there is one.
    pub fn get(&self, hashed_proof: &HashedProof) -> (found: Option<&PendingSwap<A>>)
        ensures
            match found {
                Some(swap) => self@.contains_key(*hashed_proof) && *swap == self@[*hashed_proof],
                None => !self@.contains_key(*hashed_proof),
            },
    {
        match self.position(hashed_proof) {
            Some(i) => Some(&self.records[i].1),
            None => None,
        }
    }

    /// Records `swap` under `hashed_proof`.
    ///
    /// Fails with `DuplicateProof`, changing nothing, when a swap is already
    /// pending under that commitment.
    pub fn insert(&mut self, hashed_proof: HashedProof, swap: PendingSwap<A>) -> (res: Result<
        (),
        Error,
    >)
        ensures
            old(self)@.contains_key(hashed_proof) ==> res == Err::<(), Error>(
                Error::DuplicateProof,
            ) && final(self)@ == old(self)@,
            !old(self)@.contains_key(hashed_proof) ==> res is Ok && final(self)@ == old(self)@.insert(
                hashed_proof,
                swap,
            ),
    {
        proof {
            use_type_invariant(&*self);
        }
        if self.position(&hashed_proof).is_some() {
            return Err(Error::DuplicateProof);
        }
        let ghost before = *self;
        let mut records = Vec::new();
        core::mem::swap(&mut records, &mut self.records);
        records.push((hashed_proof, swap));
        self.records = records;
        proof {
            let last = before.records@.len() as int;
            assert(self.records@[last].0 == hashed_proof);
            assert forall|p: HashedProof| #[trigger] self.holds(p) <==> (p == hashed_proof
                || before.holds(p)) by {
                if before.holds(p) {
                    let i = before.index_of(p);
                    assert(self.records@[i].0 == p);
                }
            }
            assert forall|p: HashedProof| #[trigger] self.holds(p) implies self.records@[self.index_of(
                p,
            )].1 == before@.insert(hashed_proof, swap)[p] by {
                let i = self.index_of(p);
                if p != hashed_proof {
                    let j = before.index_of(p);
                    assert(self.records@[j].0 == p);
                }
            }
            assert(self@ =~= before@.insert(hashed_proof, swap));
        }
        Ok(())
    }

    /// Takes the swap pending under `hashed_proof` out of the registry.
    pub fn remove(&mut self, hashed_proof: &HashedProof) -> (taken: Option<PendingSwap<A>>)
        ensures
            final(self)@ == old(self)@.remove(*hashed_proof),
            match taken {
                Some(swap) => old(self)@.contains_key(*hashed_proof) && swap == old(
                    self,
                )@[*hashed_proof],
                None => !old(self)@.contains_key(*hashed_proof) && final(self)@ == old(self)@,
            },
    {
        proof {
            use_type_invariant(&*self);
        }
        let ghost before = *self;
        match self.position(hashed_proof) {
            None => {
                assert(self@ =~= before@.remove(*hashed_proof));
                None
            },
            Some(at) => {
                let mut records = Vec::new();
                core::mem::swap(&mut records, &mut self.records);
                let (_, swap) = records.remove(at);
                self.records = records;
                proof {
                    let gone = at as int;
                    assert forall|p: HashedProof| #[trigger] self.holds(p) <==> (p != *hashed_proof
                        && before.holds(p)) by {
                        if self.holds(p) {
                            let i = self.index_of(p);
                            let k = if i < gone { i } else { i + 1 };
                            assert(before.records@[k].0 == p);
                        }
                        if p != *hashed_proof && before.holds(p) {
                            let k = before.index_of(p);
                            let i = if k < gone { k } else { k - 1 };
                            assert(self.records@[i].0 == p);
                        }
                    }
                    assert forall|p: HashedProof| #[trigger] self.holds(p) implies self.records@[self.index_of(
                        p,
                    )].1 == before@[p] by {
                        let i = self.index_of(p);
                        let k = if i < gone { i } else { i + 1 };
                        assert(before.records@[k].0 == p);
                    }
                    assert(self@ =~= before@.remove(*hashed_proof));
                }
                Some(swap)
            },
        }
    }
}

} // verus!
