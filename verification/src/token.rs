//! The ownership proof that a claimant presents: an SPL token account.

use crate::address::Address;
use anchor_lang::AccountDeserialize;
use anchor_spl::token::TokenAccount;
use vstd::bytes::spec_u64_from_le_bytes;
use vstd::prelude::*;

verus! {

/// What a token account says of one holder and one asset.
#[derive(Clone, Copy, Debug, PartialEq, Eq)]
pub struct TokenHolding {
    /// The asset that is held.
    pub mint: Address,
    /// Who holds it.
    pub owner: Address,
    /// How many units are held.
    pub amount: u64,
}

/// What decoding the raw data of a token account yields: its mint, its owner
/// and its amount, or `None` where the data is no initialized token account.
pub uninterp spec fn token_account_fields(data: Seq<u8>) -> Option<(Seq<u8>, Seq<u8>, u64)>;

/// A decoded holding as plain values: mint, owner, amount.
pub open spec fn holding_view(h: Option<TokenHolding>) -> Option<(Seq<u8>, Seq<u8>, u64)> {
    match h {
        Some(t) => Some((t.mint@, t.owner@, t.amount)),
        None => None,
    }
}

/// Where the three fields lie in the data of a token account: 165 bytes, the
/// mint first, then the owner, then the amount in little-endian order.
pub open spec fn laid_out_in(fields: Option<(Seq<u8>, Seq<u8>, u64)>, data: Seq<u8>) -> bool {
    match fields {
        Some((mint, owner, amount)) => {
            &&& data.len() == 165
            &&& mint == data.subrange(0, 32)
            &&& owner == data.subrange(32, 64)
            &&& amount == spec_u64_from_le_bytes(data.subrange(64, 72))
        },
        None => true,
    }
}

/// Calls `TokenAccount::try_deserialize` of anchor-spl, which unpacks an SPL
/// token account. Trusted: the result is a function of the data alone, named
/// `token_account_fields`; data of any length but 165 is refused; and what is
/// decoded lies in the data as `laid_out_in` says.
#[verifier::external_body]
pub(crate) fn unpack_token_account(data: &[u8]) -> (r: Option<TokenHolding>)
    ensures
        holding_view(r) == token_account_fields(data@),
        laid_out_in(holding_view(r), data@),
        data@.len() != 165 ==> r is None,
{
    let mut buf: &[u8] = data;
    match TokenAccount::try_deserialize(&mut buf) {
        Ok(account) => Some(
            TokenHolding {
                mint: Address { bytes: account.mint.to_bytes() },
                owner: Address { bytes: account.owner.to_bytes() },
                amount: account.amount,
            },
        ),
        Err(_) => None,
    }
}

impl TokenHolding {
    /// Whether this holding shows that `claimant` owns some of `asset`.
    pub open spec fn proves(self, claimant: Seq<u8>, asset: Seq<u8>) -> bool {
        self.owner@ == claimant && self.mint@ == asset && self.amount > 0
    }

    /// Tests the holding against a claimant and the reward asset of a pool.
    pub fn authorizes(&self, claimant: &Address, asset: &Address) -> (r: bool)
        ensures
            r == self.proves(claimant@, asset@),
    {
        self.owner.same_as(claimant) && self.mint.same_as(asset) && self.amount > 0
    }
}

/// Whether decoded token-account fields (mint, owner, amount) show that
/// `claimant` holds some of `asset`. Data that did not decode shows nothing.
pub open spec fn fields_prove(
    fields: Option<(Seq<u8>, Seq<u8>, u64)>,
    claimant: Seq<u8>,
    asset: Seq<u8>,
) -> bool {
    match fields {
        Some((mint, owner, amount)) => owner == claimant && mint == asset && amount > 0,
        None => false,
    }
}

/// Validates an ownership proof: the data must decode as a token account
/// that names `claimant` as owner and `asset` as mint and holds something.
pub fn proof_is_valid(token_account: &[u8], claimant: &Address, asset: &Address) -> (r: bool)
    ensures
        r == fields_prove(token_account_fields(token_account@), claimant@, asset@),
        token_account@.len() != 165 ==> !r,
        r ==> {
            &&& token_account@.subrange(0, 32) == asset@
            &&& token_account@.subrange(32, 64) == claimant@
            &&& spec_u64_from_le_bytes(token_account@.subrange(64, 72)) > 0
        },
{
    match unpack_token_account(token_account) {
        Some(held) => held.authorizes(claimant, asset),
        None => false,
    }
}

} // verus!
