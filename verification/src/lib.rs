//! An escrow-style challenge registry: an operator opens a named challenge
//! with a reward asset, players commit lamports to it, and one claimant who
//! holds the reward asset is paid the whole pool.

pub mod accounts;
pub mod address;
pub mod instructions;
pub mod laws;
pub mod ledger;
pub mod state;
pub mod token;

pub use accounts::{Challenge, ClaimChallenge, Initialize, Payout, StakeChallenge, StakeReceipt};
pub use address::Address;
pub use instructions::{claim_challenge, create_challenge, stake_challenge};
pub use ledger::{Ledger, PoolAccount, StakeAccount};
pub use state::{ChallengeError, ChallengeRegistryMetadata, PlayerMetadata};
pub use token::TokenHolding;
