//! The records that the registry keeps, and the errors it reports.

use crate::address::Address;
use vstd::prelude::*;

verus! {

/// Why an operation was refused. A refused operation changes nothing.
#[derive(Clone, Copy, Debug, PartialEq, Eq, Structural)]
pub enum ChallengeError {
    /// A challenge already exists at the address derived from the name.
    DuplicateChallenge,
    /// The pool is closed, or no pool exists under the name.
    PoolInactive,
    /// The player has already staked in this pool.
    DuplicateStake,
    /// The claimant has no stake in this pool, or a stake of zero.
    NoStake,
    /// The proof is no token account, or names another owner or asset, or
    /// holds nothing.
    InvalidProof,
    /// The vault holds less than the pool's total.
    InsufficientFunds,
    /// No record address can be derived from the name.
    AddressUnavailable,
    /// The stake would carry the pool's total or its vault past `u64::MAX`.
    StakeOverflow,
}

/// The record of one challenge pool.
#[derive(Clone, Debug, Default)]
pub struct ChallengeRegistryMetadata {
    /// The challenge's name, from which its address is derived.
    pub name: String,
    /// Where its description lives. Display only.
    pub uri: String,
    /// The reward asset that a claimant must hold.
    pub nft: Address,
    /// The lamports staked so far and not yet paid out.
    pub total_staked: u64,
    /// The stake that the operator asks for. Informational.
    pub require_stake: u64,
    /// True from creation until the one successful claim.
    pub is_active: bool,
    /// The bump seed of the record's address.
    pub bump: u8,
}

/// The record of one player's stake in one pool.
#[derive(Clone, Copy, Debug, Default)]
pub struct PlayerMetadata {
    /// Who staked.
    pub player: Address,
    /// How much they committed.
    pub stake_amount: u64,
    /// The bump seed of the record's address.
    pub bump: u8,
}

} // verus!
