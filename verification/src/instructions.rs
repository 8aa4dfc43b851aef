//! The three instructions: create a challenge, stake in it, claim its pool.

use crate::accounts::{Challenge, ClaimChallenge, Payout, StakeChallenge};
use crate::address::{
    challenge_address, challenge_address_of, player_address, player_address_of, Address,
};
use crate::ledger::{Ledger, PoolAccount, StakeAccount};
use crate::state::{ChallengeError, ChallengeRegistryMetadata, PlayerMetadata};
use crate::token::{laid_out_in, token_account_fields, unpack_token_account};
use vstd::prelude::*;
use vstd::utf8::encode_utf8;

verus! {

/// What `create_challenge` does: `post` and `r` are what it leaves and
/// returns on the ledger `pre`.
pub open spec fn created(
    pre: Ledger,
    post: Ledger,
    r: Result<Address, ChallengeError>,
    name: String,
    uri: String,
    nft: Address,
    require_stake: u64,
) -> bool {
    match challenge_address_of(pre.program_id@, name@) {
        None => r == Err::<Address, ChallengeError>(ChallengeError::AddressUnavailable) && post
            == pre,
        Some((key, bump)) => if pre.has_pool(key) {
            r == Err::<Address, ChallengeError>(ChallengeError::DuplicateChallenge) && post == pre
        } else {
            &&& r is Ok
            &&& r->Ok_0@ == key
            &&& post.program_id == pre.program_id
            &&& post.stakes == pre.stakes
            &&& post.pools@ == pre.pools@.push(
                PoolAccount {
                    key: r->Ok_0,
                    lamports: 0,
                    data: ChallengeRegistryMetadata {
                        name,
                        uri,
                        nft,
                        total_staked: 0,
                        require_stake,
                        is_active: true,
                        bump,
                    },
                },
            )
        },
    }
}

/// The accounts that a stake by `payer` in the challenge `name` works on,
/// or the error where they cannot be had: no open pool under the name, or
/// no address for the stake record.
pub open spec fn stake_accounts(pre: Ledger, payer: Address, name: Seq<char>) -> Result<
    StakeChallenge,
    ChallengeError,
> {
    match challenge_address_of(pre.program_id@, name) {
        None => Err(ChallengeError::PoolInactive),
        Some((pool_key, _)) => match pre.pool(pool_key) {
            None => Err(ChallengeError::PoolInactive),
            Some(p) => if !p.data.is_active {
                Err(ChallengeError::PoolInactive)
            } else {
                match player_address_of(pre.program_id@, payer@, name) {
                    None => Err(ChallengeError::AddressUnavailable),
                    Some((stake_key, bump)) => Ok(
                        StakeChallenge {
                            payer,
                            is_active: true,
                            total_staked: p.data.total_staked,
                            lamports: p.lamports,
                            bump,
                            occupied: pre.has_stake(stake_key),
                        },
                    ),
                }
            },
        },
    }
}

/// What `stake_challenge` does: `post` and `r` are what it leaves and
/// returns on the ledger `pre`.
pub open spec fn staked(
    pre: Ledger,
    post: Ledger,
    r: Result<Address, ChallengeError>,
    payer: Address,
    name: Seq<char>,
    amount: u64,
) -> bool {
    match stake_accounts(pre, payer, name) {
        Err(e) => r == Err::<Address, ChallengeError>(e) && post == pre,
        Ok(ctx) => match ctx.outcome(amount) {
            Err(e) => r == Err::<Address, ChallengeError>(e) && post == pre,
            Ok(receipt) => {
                let i = pre.pool_index(challenge_address_of(pre.program_id@, name)->Some_0.0);
                let stake_key = player_address_of(pre.program_id@, payer@, name)->Some_0.0;
                &&& r is Ok
                &&& r->Ok_0@ == stake_key
                &&& post.program_id == pre.program_id
                &&& post.pools@ == pre.pools@.update(
                    i,
                    PoolAccount {
                        key: pre.pools@[i].key,
                        lamports: receipt.lamports,
                        data: ChallengeRegistryMetadata {
                            total_staked: receipt.total_staked,
                            ..pre.pools@[i].data
                        },
                    },
                )
                &&& post.stakes@ == pre.stakes@.push(
                    StakeAccount { key: r->Ok_0, data: receipt.record },
                )
            },
        },
    }
}

/// The accounts that a claim by `payer` on the challenge `name` works on,
/// or the error where no pool lives under the name.
pub open spec fn claim_accounts(pre: Ledger, payer: Address, name: Seq<char>) -> Result<
    ClaimChallenge,
    ChallengeError,
> {
    match challenge_address_of(pre.program_id@, name) {
        None => Err(ChallengeError::PoolInactive),
        Some((pool_key, _)) => match pre.pool(pool_key) {
            None => Err(ChallengeError::PoolInactive),
            Some(p) => Ok(
                ClaimChallenge {
                    payer,
                    is_active: p.data.is_active,
                    nft: p.data.nft,
                    total_staked: p.data.total_staked,
                    lamports: p.lamports,
                    player_pda: match player_address_of(pre.program_id@, payer@, name) {
                        None => None,
                        Some((stake_key, _)) => pre.stake(stake_key),
                    },
                },
            ),
        },
    }
}

/// What `claim_challenge` does: `post` and `r` are what it leaves and
/// returns on the ledger `pre`, for the proof data `token_account`.
pub open spec fn claimed(
    pre: Ledger,
    post: Ledger,
    r: Result<Payout, ChallengeError>,
    payer: Address,
    name: Seq<char>,
    token_account: Seq<u8>,
) -> bool {
    match claim_accounts(pre, payer, name) {
        Err(e) => r == Err::<Payout, ChallengeError>(e) && post == pre,
        Ok(ctx) => match ctx.outcome(token_account_fields(token_account)) {
            Err(e) => r == Err::<Payout, ChallengeError>(e) && post == pre,
            Ok(payout) => {
                let i = pre.pool_index(challenge_address_of(pre.program_id@, name)->Some_0.0);
                &&& r == Ok::<Payout, ChallengeError>(payout)
                &&& post.program_id == pre.program_id
                &&& post.stakes == pre.stakes
                &&& post.pools@ == pre.pools@.update(
                    i,
                    PoolAccount {
                        key: pre.pools@[i].key,
                        lamports: payout.lamports_left,
                        data: ChallengeRegistryMetadata {
                            total_staked: 0,
                            is_active: false,
                            ..pre.pools@[i].data
                        },
                    },
                )
            },
        },
    }
}

/// Creates the challenge `name` with its reward asset and the stake asked
/// for. The pool starts open with nothing staked, at the address derived
/// from the name, which is returned. Refused where a challenge of that name
/// exists, or where the name gives no address.
pub fn create_challenge(
    ledger: &mut Ledger,
    payer: Address,
    name: String,
    uri: String,
    nft: Address,
    require_stake: u64,
) -> (r: Result<Address, ChallengeError>)
    requires
        old(ledger).wf(),
    ensures
        final(ledger).wf(),
        created(*old(ledger), *final(ledger), r, name, uri, nft, require_stake),
        encode_utf8(name@).len() > 32 ==> r == Err::<Address, ChallengeError>(
            ChallengeError::AddressUnavailable,
        ),
        r is Ok ==> ({
            let pool = final(ledger).pool(r->Ok_0@);
            &&& pool is Some
            &&& pool->Some_0.data.total_staked == 0
            &&& pool->Some_0.data.is_active
            &&& pool->Some_0.lamports == 0
        }),
{
    let (key, bump) = match challenge_address(&ledger.program_id, name.as_str()) {
        Some(derived) => derived,
        None => {
            return Err(ChallengeError::AddressUnavailable);
        },
    };
    let occupied = ledger.find_pool(&key).is_some();
    let ctx = Challenge { payer, pda: key, bump, occupied };
    match ctx.open(name, uri, nft, require_stake) {
        Err(e) => Err(e),
        Ok(data) => {
            ledger.pools.push(PoolAccount { key, lamports: 0, data });
            assert(ledger.wf()) by {
                let pools = ledger.pools@;
                let n = pools.len() - 1;
                assert forall|i: int, j: int| 0 <= i < j < pools.len() implies (#[trigger] pools[i]).key@
                    != (#[trigger] pools[j]).key@ by {
                    if j == n {
                        assert(old(ledger).pools@[i].key@ != key@);
                    } else {
                        assert(old(ledger).pools@[i].key@ != old(ledger).pools@[j].key@);
                    }
                }
            }
            proof {
                ledger.lemma_pool_position(ledger.pools@.len() - 1);
            }
            Ok(key)
        },
    }
}

/// Stakes `amount` lamports of `payer` in the challenge `challenge_name`:
/// one stake record is created for the player, and the amount enters the
/// vault and the pool's total. The address of the stake record is returned.
/// Refused where no open pool lives under the name, where the player has
/// staked in it before, or where the total would overflow.
pub fn stake_challenge(
    ledger: &mut Ledger,
    payer: Address,
    challenge_name: String,
    amount: u64,
) -> (r: Result<Address, ChallengeError>)
    requires
        old(ledger).wf(),
    ensures
        final(ledger).wf(),
        staked(*old(ledger), *final(ledger), r, payer, challenge_name@, amount),
        encode_utf8(challenge_name@).len() > 32 ==> r == Err::<Address, ChallengeError>(
            ChallengeError::PoolInactive,
        ),
        r is Ok ==> ({
            let pool_key = challenge_address_of(old(ledger).program_id@, challenge_name@)->Some_0.0;
            let before = old(ledger).pool(pool_key);
            let after = final(ledger).pool(pool_key);
            &&& before is Some
            &&& after is Some
            &&& after->Some_0.data.total_staked == before->Some_0.data.total_staked + amount
            &&& after->Some_0.lamports == before->Some_0.lamports + amount
            &&& after->Some_0.data.is_active
            &&& old(ledger).stake(r->Ok_0@) is None
            &&& final(ledger).stake(r->Ok_0@) == Some(
                PlayerMetadata {
                    player: payer,
                    stake_amount: amount,
                    bump: player_address_of(
                        old(ledger).program_id@,
                        payer@,
                        challenge_name@,
                    )->Some_0.1,
                },
            )
        }),
{
    let pool_key = match challenge_address(&ledger.program_id, challenge_name.as_str()) {
        Some(derived) => derived.0,
        None => {
            return Err(ChallengeError::PoolInactive);
        },
    };
    let i = match ledger.find_pool(&pool_key) {
        Some(i) => i,
        None => {
            return Err(ChallengeError::PoolInactive);
        },
    };
    if !ledger.pools[i].data.is_active {
        return Err(ChallengeError::PoolInactive);
    }
    let (stake_key, bump) = match player_address(
        &ledger.program_id,
        &payer,
        challenge_name.as_str(),
    ) {
        Some(derived) => derived,
        None => {
            return Err(ChallengeError::AddressUnavailable);
        },
    };
    let ctx = StakeChallenge {
        payer,
        is_active: true,
        total_staked: ledger.pools[i].data.total_staked,
        lamports: ledger.pools[i].lamports,
        bump,
        occupied: ledger.find_stake(&stake_key).is_some(),
    };
    assert(stake_accounts(*old(ledger), payer, challenge_name@) == Ok::<
        StakeChallenge,
        ChallengeError,
    >(ctx));
    match ctx.commit(amount) {
        Err(e) => Err(e),
        Ok(receipt) => {
            ledger.pools[i].data.total_staked = receipt.total_staked;
            ledger.pools[i].lamports = receipt.lamports;
            ledger.stakes.push(StakeAccount { key: stake_key, data: receipt.record });
            assert(ledger.pools@ =~= old(ledger).pools@.update(
                i as int,
                PoolAccount {
                    key: old(ledger).pools@[i as int].key,
                    lamports: receipt.lamports,
                    data: ChallengeRegistryMetadata {
                        total_staked: receipt.total_staked,
                        ..old(ledger).pools@[i as int].data
                    },
                },
            ));
            proof {
                ledger.lemma_pool_position(i as int);
                ledger.lemma_stake_position(ledger.stakes@.len() - 1);
            }
            Ok(stake_key)
        },
    }
}

/// Claims the pool of the challenge `challenge_name` for `payer`, who
/// presents the data of a token account as proof of holding the reward
/// asset. The checks come in this order: the pool is open; the claimant has
/// a stake above zero in it; the proof decodes; it names the claimant as
/// owner and the reward asset as mint, and holds something. The pool's whole
/// total then leaves the vault for the claimant, the total is set to zero
/// and the pool is closed for good.
pub fn claim_challenge(
    ledger: &mut Ledger,
    payer: Address,
    challenge_name: String,
    token_account: &[u8],
) -> (r: Result<Payout, ChallengeError>)
    requires
        old(ledger).wf(),
    ensures
        final(ledger).wf(),
        claimed(*old(ledger), *final(ledger), r, payer, challenge_name@, token_account@),
        r != Err::<Payout, ChallengeError>(ChallengeError::InsufficientFunds),
        encode_utf8(challenge_name@).len() > 32 ==> r == Err::<Payout, ChallengeError>(
            ChallengeError::PoolInactive,
        ),
        r is Ok ==> laid_out_in(token_account_fields(token_account@), token_account@),
        r is Ok ==> ({
            let pool_key = challenge_address_of(old(ledger).program_id@, challenge_name@)->Some_0.0;
            let before = old(ledger).pool(pool_key);
            let after = final(ledger).pool(pool_key);
            &&& before is Some
            &&& after is Some
            &&& r->Ok_0.recipient == payer
            &&& r->Ok_0.amount == before->Some_0.data.total_staked
            &&& after->Some_0.data.total_staked == 0
            &&& !after->Some_0.data.is_active
            &&& after->Some_0.lamports == before->Some_0.lamports - r->Ok_0.amount
        }),
{
    let pool_key = match challenge_address(&ledger.program_id, challenge_name.as_str()) {
        Some(derived) => derived.0,
        None => {
            return Err(ChallengeError::PoolInactive);
        },
    };
    let i = match ledger.find_pool(&pool_key) {
        Some(i) => i,
        None => {
            return Err(ChallengeError::PoolInactive);
        },
    };
    let player_pda = match player_address(&ledger.program_id, &payer, challenge_name.as_str()) {
        Some(derived) => ledger.stake_at(&derived.0),
        None => None,
    };
    let ctx = ClaimChallenge {
        payer,
        is_active: ledger.pools[i].data.is_active,
        nft: ledger.pools[i].data.nft,
        total_staked: ledger.pools[i].data.total_staked,
        lamports: ledger.pools[i].lamports,
        player_pda,
    };
    assert(claim_accounts(*old(ledger), payer, challenge_name@) == Ok::<
        ClaimChallenge,
        ChallengeError,
    >(ctx));
    let holding = unpack_token_account(token_account);
    match ctx.settle(holding) {
        Err(e) => Err(e),
        Ok(payout) => {
            ledger.pools[i].lamports = payout.lamports_left;
            ledger.pools[i].data.total_staked = 0;
            ledger.pools[i].data.is_active = false;
            assert(ledger.pools@ =~= old(ledger).pools@.update(
                i as int,
                PoolAccount {
                    key: old(ledger).pools@[i as int].key,
                    lamports: payout.lamports_left,
                    data: ChallengeRegistryMetadata {
                        total_staked: 0,
                        is_active: false,
                        ..old(ledger).pools@[i as int].data
                    },
                },
            ));
            proof {
                ledger.lemma_pool_position(i as int);
            }
            Ok(payout)
        },
    }
}

} // verus!
