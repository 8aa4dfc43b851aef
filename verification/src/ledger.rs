//! The ledger of records: the challenge pools and the stake records, each
//! found by its address.

use crate::address::Address;
use crate::state::{ChallengeRegistryMetadata, PlayerMetadata};
use vstd::prelude::*;

verus! {

/// A challenge record at its address, with the lamports of its vault.
#[derive(Clone, Debug)]
pub struct PoolAccount {
    /// The record's address, derived from the challenge's name.
    pub key: Address,
    /// The lamports that the vault holds.
    pub lamports: u64,
    /// The record.
    pub data: ChallengeRegistryMetadata,
}

/// A stake record at its address.
#[derive(Clone, Copy, Debug)]
pub struct StakeAccount {
    /// The record's address, derived from the player and the challenge's name.
    pub key: Address,
    /// The record.
    pub data: PlayerMetadata,
}

/// All records of one program: the challenge pools and the players' stakes.
#[derive(Clone, Debug)]
pub struct Ledger {
    /// The program under which the record addresses are derived.
    pub program_id: Address,
    /// The challenge pools, in the order of their creation.
    pub pools: Vec<PoolAccount>,
    /// The stake records, in the order of their creation.
    pub stakes: Vec<StakeAccount>,
}

impl Ledger {
    /// Whether a pool lives at `key`.
    pub open spec fn has_pool(self, key: Seq<u8>) -> bool {
        exists|i: int| 0 <= i < self.pools@.len() && (#[trigger] self.pools@[i]).key@ == key
    }

    /// The position of the pool at `key`, where there is one.
    pub open spec fn pool_index(self, key: Seq<u8>) -> int {
        choose|i: int| 0 <= i < self.pools@.len() && (#[trigger] self.pools@[i]).key@ == key
    }

    /// The pool at `key`, if there is one.
    pub open spec fn pool(self, key: Seq<u8>) -> Option<PoolAccount> {
        if self.has_pool(key) {
            Some(self.pools@[self.pool_index(key)])
        } else {
            None
        }
    }

    /// Whether a stake record lives at `key`.
    pub open spec fn has_stake(self, key: Seq<u8>) -> bool {
        exists|i: int| 0 <= i < self.stakes@.len() && (#[trigger] self.stakes@[i]).key@ == key
    }

    /// The position of the stake record at `key`, where there is one.
    pub open spec fn stake_index(self, key: Seq<u8>) -> int {
        choose|i: int| 0 <= i < self.stakes@.len() && (#[trigger] self.stakes@[i]).key@ == key
    }

    /// The stake record at `key`, if there is one.
    pub open spec fn stake(self, key: Seq<u8>) -> Option<PlayerMetadata> {
        if self.has_stake(key) {
            Some(self.stakes@[self.stake_index(key)].data)
        } else {
            None
        }
    }

    /// The ledger's invariant: no address holds two records; every vault
    /// covers its pool's total; a closed pool has a total of zero.
    pub open spec fn wf(self) -> bool {
        &&& forall|i: int, j: int|
            0 <= i < j < self.pools@.len() ==> (#[trigger] self.pools@[i]).key@ != (
            #[trigger] self.pools@[j]).key@
        &&& forall|i: int, j: int|
            0 <= i < j < self.stakes@.len() ==> (#[trigger] self.stakes@[i]).key@ != (
            #[trigger] self.stakes@[j]).key@
        &&& forall|i: int|
            0 <= i < self.pools@.len() ==> {
                &&& (#[trigger] self.pools@[i]).data.total_staked <= self.pools@[i].lamports
                &&& !self.pools@[i].data.is_active ==> self.pools@[i].data.total_staked == 0
            }
    }

    /// In a well-formed ledger the pool at position `i` is the one found
    /// under its key.
    pub proof fn lemma_pool_position(self, i: int)
        requires
            self.wf(),
            0 <= i < self.pools@.len(),
        ensures
            self.has_pool(self.pools@[i].key@),
            self.pool_index(self.pools@[i].key@) == i,
            self.pool(self.pools@[i].key@) == Some(self.pools@[i]),
    {
        let key = self.pools@[i].key@;
        let j = self.pool_index(key);
        assert(0 <= j < self.pools@.len() && self.pools@[j].key@ == key);
        if j < i {
            assert(self.pools@[j].key@ != self.pools@[i].key@);
        } else if i < j {
            assert(self.pools@[i].key@ != self.pools@[j].key@);
        }
    }

    /// In a well-formed ledger the stake record at position `i` is the one
    /// found under its key.
    pub proof fn lemma_stake_position(self, i: int)
        requires
            self.wf(),
            0 <= i < self.stakes@.len(),
        ensures
            self.has_stake(self.stakes@[i].key@),
            self.stake_index(self.stakes@[i].key@) == i,
            self.stake(self.stakes@[i].key@) == Some(self.stakes@[i].data),
    {
        let key = self.stakes@[i].key@;
        let j = self.stake_index(key);
        assert(0 <= j < self.stakes@.len() && self.stakes@[j].key@ == key);
        if j < i {
            assert(self.stakes@[j].key@ != self.stakes@[i].key@);
        } else if i < j {
            assert(self.stakes@[i].key@ != self.stakes@[j].key@);
        }
    }

    /// An empty ledger for the program `program_id`.
    pub fn new(program_id: Address) -> (l: Ledger)
        ensures
            l.wf(),
            l.program_id == program_id,
            l.pools@.len() == 0,
            l.stakes@.len() == 0,
    {
        Ledger { program_id, pools: Vec::new(), stakes: Vec::new() }
    }

    /// Tests the ledger's invariant, for a ledger that was put together
    /// field by field.
    pub fn is_well_formed(&self) -> (r: bool)
        ensures
            r == self.wf(),
    {
        let mut j: usize = 0;
        while j < self.pools.len()
            invariant
                j <= self.pools@.len(),
                forall|a: int, b: int|
                    0 <= a < b < j ==> (#[trigger] self.pools@[a]).key@ != (
                    #[trigger] self.pools@[b]).key@,
                forall|a: int|
                    0 <= a < j ==> {
                        &&& (#[trigger] self.pools@[a]).data.total_staked <= self.pools@[a].lamports
                        &&& !self.pools@[a].data.is_active ==> self.pools@[a].data.total_staked
                            == 0
                    },
            decreases self.pools@.len() - j,
        {
            let pool = &self.pools[j];
            if pool.data.total_staked > pool.lamports {
                return false;
            }
            if !pool.data.is_active && pool.data.total_staked != 0 {
                return false;
            }
            let mut i: usize = 0;
            while i < j
                invariant
                    i <= j < self.pools@.len(),
                    forall|a: int| 0 <= a < i ==> (#[trigger] self.pools@[a]).key@ != self.pools@[j as int].key@,
                decreases j - i,
            {
                if self.pools[i].key.same_as(&self.pools[j].key) {
                    assert(self.pools@[i as int].key@ == self.pools@[j as int].key@);
                    return false;
                }
                i += 1;
            }
            j += 1;
        }
        let mut j: usize = 0;
        while j < self.stakes.len()
            invariant
                j <= self.stakes@.len(),
                forall|a: int, b: int|
                    0 <= a < b < j ==> (#[trigger] self.stakes@[a]).key@ != (
                    #[trigger] self.stakes@[b]).key@,
            decreases self.stakes@.len() - j,
        {
            let mut i: usize = 0;
            while i < j
                invariant
                    i <= j < self.stakes@.len(),
                    forall|a: int| 0 <= a < i ==> (#[trigger] self.stakes@[a]).key@ != self.stakes@[j as int].key@,
                decreases j - i,
            {
                if self.stakes[i].key.same_as(&self.stakes[j].key) {
                    assert(self.stakes@[i as int].key@ == self.stakes@[j as int].key@);
                    return false;
                }
                i += 1;
            }
            j += 1;
        }
        true
    }

    /// The position of the pool at `key`.
    pub(crate) fn find_pool(&self, key: &Address) -> (r: Option<usize>)
        requires
            self.wf(),
        ensures
            r is Some <==> self.has_pool(key@),
            r is Some ==> r->Some_0 == self.pool_index(key@) && r->Some_0 < self.pools@.len(),
    {
        let mut i: usize = 0;
        while i < self.pools.len()
            invariant
                i <= self.pools@.len(),
                self.wf(),
                forall|j: int| 0 <= j < i ==> (#[trigger] self.pools@[j]).key@ != key@,
            decreases self.pools@.len() - i,
        {
            if self.pools[i].key.same_as(key) {
                proof {
                    self.lemma_pool_position(i as int);
                }
                return Some(i);
            }
            i += 1;
        }
        None
    }

    /// The position of the stake record at `key`.
    pub(crate) fn find_stake(&self, key: &Address) -> (r: Option<usize>)
        requires
            self.wf(),
        ensures
            r is Some <==> self.has_stake(key@),
            r is Some ==> r->Some_0 == self.stake_index(key@) && r->Some_0 < self.stakes@.len(),
    {
        let mut i: usize = 0;
        while i < self.stakes.len()
            invariant
                i <= self.stakes@.len(),
                self.wf(),
                forall|j: int| 0 <= j < i ==> (#[trigger] self.stakes@[j]).key@ != key@,
            decreases self.stakes@.len() - i,
        {
            if self.stakes[i].key.same_as(key) {
                proof {
                    self.lemma_stake_position(i as int);
                }
                return Some(i);
            }
            i += 1;
        }
        None
    }

    /// The pool that lives at `key`, if there is one.
    pub fn pool_at(&self, key: &Address) -> (r: Option<&PoolAccount>)
        requires
            self.wf(),
        ensures
            match r {
                Some(p) => self.pool(key@) == Some(*p),
                None => self.pool(key@) is None,
            },
    {
        match self.find_pool(key) {
            Some(i) => Some(&self.pools[i]),
            None => None,
        }
    }

    /// The stake record that lives at `key`, if there is one.
    pub fn stake_at(&self, key: &Address) -> (r: Option<PlayerMetadata>)
        requires
            self.wf(),
        ensures
            r == self.stake(key@),
    {
        match self.find_stake(key) {
            Some(i) => Some(self.stakes[i].data),
            None => None,
        }
    }
}

} // verus!
