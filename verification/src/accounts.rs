//! The accounts that each instruction works on, resolved to plain values,
//! and the decision that each instruction takes on them.

use crate::address::Address;
use crate::state::{ChallengeError, ChallengeRegistryMetadata, PlayerMetadata};
use crate::token::{fields_prove, holding_view, TokenHolding};
use vstd::prelude::*;

verus! {

/// The accounts of an instruction that needs none.
#[derive(Clone, Copy, Debug, Default)]
pub struct Initialize {}

/// The accounts of `create_challenge`.
#[derive(Clone, Copy, Debug)]
pub struct Challenge {
    /// Who creates the challenge.
    pub payer: Address,
    /// The address derived for the new record.
    pub pda: Address,
    /// The bump seed of that address.
    pub bump: u8,
    /// Whether a record already lives at that address.
    pub occupied: bool,
}

/// The accounts of `stake_challenge`.
#[derive(Clone, Copy, Debug)]
pub struct StakeChallenge {
    /// Who stakes.
    pub payer: Address,
    /// Whether the pool is still open.
    pub is_active: bool,
    /// The pool's total before this stake.
    pub total_staked: u64,
    /// The lamports in the pool's vault before this stake.
    pub lamports: u64,
    /// The bump seed of the stake record's address.
    pub bump: u8,
    /// Whether the player already has a stake record in this pool.
    pub occupied: bool,
}

/// What a stake that was accepted changes.
#[derive(Clone, Copy, Debug)]
pub struct StakeReceipt {
    /// The new stake record.
    pub record: PlayerMetadata,
    /// The pool's total after the stake.
    pub total_staked: u64,
    /// The lamports in the vault after the stake.
    pub lamports: u64,
}

/// The accounts of `claim_challenge`.
#[derive(Clone, Copy, Debug)]
pub struct ClaimChallenge {
    /// Who claims.
    pub payer: Address,
    /// Whether the pool is still open.
    pub is_active: bool,
    /// The pool's reward asset.
    pub nft: Address,
    /// The pool's total.
    pub total_staked: u64,
    /// The lamports in the pool's vault.
    pub lamports: u64,
    /// The claimant's stake record in this pool, if there is one.
    pub player_pda: Option<PlayerMetadata>,
}

/// What a claim that was accepted pays and leaves.
#[derive(Clone, Copy, Debug, PartialEq, Eq)]
pub struct Payout {
    /// Who is paid.
    pub recipient: Address,
    /// The lamports paid: the pool's whole total.
    pub amount: u64,
    /// The lamports left in the vault.
    pub lamports_left: u64,
}

impl Challenge {
    /// The record that a new challenge starts with: nothing staked, open.
    pub open spec fn fresh(
        self,
        name: String,
        uri: String,
        nft: Address,
        require_stake: u64,
    ) -> ChallengeRegistryMetadata {
        ChallengeRegistryMetadata {
            name,
            uri,
            nft,
            total_staked: 0,
            require_stake,
            is_active: true,
            bump: self.bump,
        }
    }

    /// Decides a creation: refused where the address is taken, else the
    /// fresh record.
    pub fn open(&self, name: String, uri: String, nft: Address, require_stake: u64) -> (r: Result<
        ChallengeRegistryMetadata,
        ChallengeError,
    >)
        ensures
            self.occupied ==> r == Err::<ChallengeRegistryMetadata, ChallengeError>(
                ChallengeError::DuplicateChallenge,
            ),
            !self.occupied ==> r == Ok::<ChallengeRegistryMetadata, ChallengeError>(
                self.fresh(name, uri, nft, require_stake),
            ),
    {
        if self.occupied {
            return Err(ChallengeError::DuplicateChallenge);
        }
        Ok(
            ChallengeRegistryMetadata {
                name,
                uri,
                nft,
                total_staked: 0,
                require_stake,
                is_active: true,
                bump: self.bump,
            },
        )
    }
}

impl StakeChallenge {
    /// What a stake of `amount` comes to on these accounts.
    pub open spec fn outcome(self, amount: u64) -> Result<StakeReceipt, ChallengeError> {
        if !self.is_active {
            Err(ChallengeError::PoolInactive)
        } else if self.occupied {
            Err(ChallengeError::DuplicateStake)
        } else if self.total_staked + amount > u64::MAX || self.lamports + amount > u64::MAX {
            Err(ChallengeError::StakeOverflow)
        } else {
            Ok(
                StakeReceipt {
                    record: PlayerMetadata {
                        player: self.payer,
                        stake_amount: amount,
                        bump: self.bump,
                    },
                    total_staked: (self.total_staked + amount) as u64,
                    lamports: (self.lamports + amount) as u64,
                },
            )
        }
    }

    /// Decides a stake: the pool must be open and the player new to it; the
    /// amount then enters the vault and the pool's total.
    pub fn commit(&self, amount: u64) -> (r: Result<StakeReceipt, ChallengeError>)
        ensures
            r == self.outcome(amount),
    {
        if !self.is_active {
            return Err(ChallengeError::PoolInactive);
        }
        if self.occupied {
            return Err(ChallengeError::DuplicateStake);
        }
        let total = match self.total_staked.checked_add(amount) {
            Some(t) => t,
            None => {
                return Err(ChallengeError::StakeOverflow);
            },
        };
        let lamports = match self.lamports.checked_add(amount) {
            Some(l) => l,
            None => {
                return Err(ChallengeError::StakeOverflow);
            },
        };
        Ok(
            StakeReceipt {
                record: PlayerMetadata { player: self.payer, stake_amount: amount, bump: self.bump },
                total_staked: total,
                lamports,
            },
        )
    }
}

impl ClaimChallenge {
    /// Whether the claimant has a stake record with a stake above zero.
    pub open spec fn has_stake(self) -> bool {
        self.player_pda is Some && self.player_pda->Some_0.stake_amount != 0
    }

    /// Whether the decoded proof (mint, owner, amount) shows the claimant to
    /// hold some of the reward asset.
    pub open spec fn proof_holds(self, proof_fields: Option<(Seq<u8>, Seq<u8>, u64)>) -> bool {
        fields_prove(proof_fields, self.payer@, self.nft@)
    }

    /// What a claim comes to on these accounts, given the decoded proof.
    pub open spec fn outcome(self, proof_fields: Option<(Seq<u8>, Seq<u8>, u64)>) -> Result<
        Payout,
        ChallengeError,
    > {
        if !self.is_active {
            Err(ChallengeError::PoolInactive)
        } else if !self.has_stake() {
            Err(ChallengeError::NoStake)
        } else if !self.proof_holds(proof_fields) {
            Err(ChallengeError::InvalidProof)
        } else if self.lamports < self.total_staked {
            Err(ChallengeError::InsufficientFunds)
        } else {
            Ok(
                Payout {
                    recipient: self.payer,
                    amount: self.total_staked,
                    lamports_left: (self.lamports - self.total_staked) as u64,
                },
            )
        }
    }

    /// Decides a claim, the checks in their order: the pool is open, the
    /// claimant has staked, the proof decodes, it names the claimant and the
    /// reward asset and holds something, the vault covers the total. The
    /// whole total is then paid to the claimant.
    pub fn settle(&self, holding: Option<TokenHolding>) -> (r: Result<Payout, ChallengeError>)
        ensures
            r == self.outcome(holding_view(holding)),
    {
        if !self.is_active {
            return Err(ChallengeError::PoolInactive);
        }
        match self.player_pda {
            Some(stake) => {
                if stake.stake_amount == 0 {
                    return Err(ChallengeError::NoStake);
                }
            },
            None => {
                return Err(ChallengeError::NoStake);
            },
        }
        match holding {
            Some(held) => {
                if !held.authorizes(&self.payer, &self.nft) {
                    return Err(ChallengeError::InvalidProof);
                }
            },
            None => {
                return Err(ChallengeError::InvalidProof);
            },
        }
        if self.lamports < self.total_staked {
            return Err(ChallengeError::InsufficientFunds);
        }
        Ok(
            Payout {
                recipient: self.payer,
                amount: self.total_staked,
                lamports_left: self.lamports - self.total_staked,
            },
        )
    }
}

} // verus!
