//! What holds of the three instructions on every ledger, stated over the
//! relations `created`, `staked` and `claimed` that their contracts ensure.

use crate::accounts::Payout;
use crate::address::{challenge_address_of, player_address_of, Address};
use crate::instructions::{claim_accounts, claimed, created, staked};
use crate::ledger::Ledger;
use crate::state::ChallengeError;
use crate::token::token_account_fields;
use vstd::prelude::*;

verus! {

/// A creation keeps the ledger well formed.
pub proof fn law_create_keeps_invariant(
    pre: Ledger,
    post: Ledger,
    r: Result<Address, ChallengeError>,
    name: String,
    uri: String,
    nft: Address,
    require_stake: u64,
)
    requires
        pre.wf(),
        created(pre, post, r, name, uri, nft, require_stake),
    ensures
        post.wf(),
{
    if r is Ok {
        let key = challenge_address_of(pre.program_id@, name@)->Some_0.0;
        let n = pre.pools@.len() as int;
        assert forall|i: int, j: int| 0 <= i < j < post.pools@.len() implies (
        #[trigger] post.pools@[i]).key@ != (#[trigger] post.pools@[j]).key@ by {
            if j == n {
                assert(pre.pools@[i].key@ != key);
            } else {
                assert(pre.pools@[i].key@ != pre.pools@[j].key@);
            }
        }
    }
}

/// A stake keeps the ledger well formed.
pub proof fn law_stake_keeps_invariant(
    pre: Ledger,
    post: Ledger,
    r: Result<Address, ChallengeError>,
    payer: Address,
    name: Seq<char>,
    amount: u64,
)
    requires
        pre.wf(),
        staked(pre, post, r, payer, name, amount),
    ensures
        post.wf(),
{
    if r is Ok {
        let stake_key = player_address_of(pre.program_id@, payer@, name)->Some_0.0;
        let n = pre.stakes@.len() as int;
        assert forall|i: int, j: int| 0 <= i < j < post.stakes@.len() implies (
        #[trigger] post.stakes@[i]).key@ != (#[trigger] post.stakes@[j]).key@ by {
            if j == n {
                assert(pre.stakes@[i].key@ != stake_key);
            } else {
                assert(pre.stakes@[i].key@ != pre.stakes@[j].key@);
            }
        }
        assert forall|i: int, j: int| 0 <= i < j < post.pools@.len() implies (
        #[trigger] post.pools@[i]).key@ != (#[trigger] post.pools@[j]).key@ by {
            assert(pre.pools@[i].key@ != pre.pools@[j].key@);
        }
    }
}

/// A claim keeps the ledger well formed.
pub proof fn law_claim_keeps_invariant(
    pre: Ledger,
    post: Ledger,
    r: Result<Payout, ChallengeError>,
    payer: Address,
    name: Seq<char>,
    token_account: Seq<u8>,
)
    requires
        pre.wf(),
        claimed(pre, post, r, payer, name, token_account),
    ensures
        post.wf(),
{
    if r is Ok {
        assert forall|i: int, j: int| 0 <= i < j < post.pools@.len() implies (
        #[trigger] post.pools@[i]).key@ != (#[trigger] post.pools@[j]).key@ by {
            assert(pre.pools@[i].key@ != pre.pools@[j].key@);
        }
    }
}

/// Every challenge that is created starts open, with nothing staked and an
/// empty vault, and holds what it was created with.
pub proof fn law_created_pool_is_open(
    pre: Ledger,
    post: Ledger,
    r: Result<Address, ChallengeError>,
    name: String,
    uri: String,
    nft: Address,
    require_stake: u64,
)
    requires
        pre.wf(),
        created(pre, post, r, name, uri, nft, require_stake),
        r is Ok,
    ensures
        post.pool(r->Ok_0@) is Some,
        post.pool(r->Ok_0@)->Some_0.data.total_staked == 0,
        post.pool(r->Ok_0@)->Some_0.data.is_active,
        post.pool(r->Ok_0@)->Some_0.lamports == 0,
        post.pool(r->Ok_0@)->Some_0.data.name == name,
        post.pool(r->Ok_0@)->Some_0.data.uri == uri,
        post.pool(r->Ok_0@)->Some_0.data.nft == nft,
        post.pool(r->Ok_0@)->Some_0.data.require_stake == require_stake,
        post.pools@.len() == pre.pools@.len() + 1,
{
    law_create_keeps_invariant(pre, post, r, name, uri, nft, require_stake);
    post.lemma_pool_position(pre.pools@.len() as int);
}

/// Of two creations under one name the second is refused as a duplicate,
/// whatever else it asks for, and leaves the ledger as the first left it.
pub proof fn law_second_create_refused(
    l0: Ledger,
    l1: Ledger,
    l2: Ledger,
    r1: Result<Address, ChallengeError>,
    r2: Result<Address, ChallengeError>,
    name1: String,
    uri1: String,
    nft1: Address,
    require_stake1: u64,
    name2: String,
    uri2: String,
    nft2: Address,
    require_stake2: u64,
)
    requires
        l0.wf(),
        created(l0, l1, r1, name1, uri1, nft1, require_stake1),
        r1 is Ok,
        name2@ == name1@,
        created(l1, l2, r2, name2, uri2, nft2, require_stake2),
    ensures
        r2 == Err::<Address, ChallengeError>(ChallengeError::DuplicateChallenge),
        l2 == l1,
{
    law_create_keeps_invariant(l0, l1, r1, name1, uri1, nft1, require_stake1);
    l1.lemma_pool_position(l0.pools@.len() as int);
}

/// A stake that is accepted adds exactly its amount to the pool's total and
/// to its vault, and creates exactly one stake record, that of the player
/// with the amount, where there was none.
pub proof fn law_stake_adds_amount(
    pre: Ledger,
    post: Ledger,
    r: Result<Address, ChallengeError>,
    payer: Address,
    name: Seq<char>,
    amount: u64,
)
    requires
        pre.wf(),
        staked(pre, post, r, payer, name, amount),
        r is Ok,
    ensures
        ({
            let pool_key = challenge_address_of(pre.program_id@, name)->Some_0.0;
            &&& pre.pool(pool_key) is Some
            &&& post.pool(pool_key) is Some
            &&& post.pool(pool_key)->Some_0.data.total_staked == pre.pool(
                pool_key,
            )->Some_0.data.total_staked + amount
            &&& post.pool(pool_key)->Some_0.lamports == pre.pool(pool_key)->Some_0.lamports + amount
            &&& post.pool(pool_key)->Some_0.data.is_active
        }),
        pre.stake(r->Ok_0@) is None,
        post.stake(r->Ok_0@) is Some,
        post.stake(r->Ok_0@)->Some_0.player == payer,
        post.stake(r->Ok_0@)->Some_0.stake_amount == amount,
        post.stakes@.len() == pre.stakes@.len() + 1,
        post.pools@.len() == pre.pools@.len(),
{
    law_stake_keeps_invariant(pre, post, r, payer, name, amount);
    let pool_key = challenge_address_of(pre.program_id@, name)->Some_0.0;
    let i = pre.pool_index(pool_key);
    post.lemma_pool_position(i);
    post.lemma_stake_position(pre.stakes@.len() as int);
}

/// A second stake by the same player in the same pool is refused as a
/// duplicate, whatever its amount, and changes nothing: the total stays.
pub proof fn law_second_stake_refused(
    l0: Ledger,
    l1: Ledger,
    l2: Ledger,
    r1: Result<Address, ChallengeError>,
    r2: Result<Address, ChallengeError>,
    payer: Address,
    name: Seq<char>,
    amount1: u64,
    amount2: u64,
)
    requires
        l0.wf(),
        staked(l0, l1, r1, payer, name, amount1),
        r1 is Ok,
        staked(l1, l2, r2, payer, name, amount2),
    ensures
        r2 == Err::<Address, ChallengeError>(ChallengeError::DuplicateStake),
        l2 == l1,
{
    law_stake_keeps_invariant(l0, l1, r1, payer, name, amount1);
    let pool_key = challenge_address_of(l0.program_id@, name)->Some_0.0;
    let i = l0.pool_index(pool_key);
    l1.lemma_pool_position(i);
    l1.lemma_stake_position(l0.stakes@.len() as int);
}

/// A claim on a pool that is closed is refused as inactive, whoever claims
/// and whatever the proof, and changes nothing.
pub proof fn law_claim_closed_pool(
    pre: Ledger,
    post: Ledger,
    r: Result<Payout, ChallengeError>,
    payer: Address,
    name: Seq<char>,
    token_account: Seq<u8>,
)
    requires
        pre.wf(),
        claimed(pre, post, r, payer, name, token_account),
        challenge_address_of(pre.program_id@, name) is Some,
        pre.pool(challenge_address_of(pre.program_id@, name)->Some_0.0) is Some,
        !pre.pool(challenge_address_of(pre.program_id@, name)->Some_0.0)->Some_0.data.is_active,
    ensures
        r == Err::<Payout, ChallengeError>(ChallengeError::PoolInactive),
        post == pre,
{
}

/// A claim whose proof names another owner than the claimant is refused and
/// changes nothing; where the pool is open and the claimant has a stake, the
/// refusal is that of an invalid proof.
pub proof fn law_claim_foreign_proof(
    pre: Ledger,
    post: Ledger,
    r: Result<Payout, ChallengeError>,
    payer: Address,
    name: Seq<char>,
    token_account: Seq<u8>,
)
    requires
        pre.wf(),
        claimed(pre, post, r, payer, name, token_account),
        token_account_fields(token_account) is Some,
        token_account_fields(token_account)->Some_0.1 != payer@,
    ensures
        r is Err,
        post == pre,
        (claim_accounts(pre, payer, name) is Ok && claim_accounts(pre, payer, name)->Ok_0.is_active
            && claim_accounts(pre, payer, name)->Ok_0.has_stake()) ==> r == Err::<
            Payout,
            ChallengeError,
        >(ChallengeError::InvalidProof),
{
}

/// A claim that is accepted pays the pool's whole total, empties the total
/// and closes the pool; the vault keeps what it held beyond the total.
pub proof fn law_claim_pays_total(
    pre: Ledger,
    post: Ledger,
    r: Result<Payout, ChallengeError>,
    payer: Address,
    name: Seq<char>,
    token_account: Seq<u8>,
)
    requires
        pre.wf(),
        claimed(pre, post, r, payer, name, token_account),
        r is Ok,
    ensures
        ({
            let pool_key = challenge_address_of(pre.program_id@, name)->Some_0.0;
            &&& pre.pool(pool_key) is Some
            &&& post.pool(pool_key) is Some
            &&& r->Ok_0.recipient == payer
            &&& r->Ok_0.amount == pre.pool(pool_key)->Some_0.data.total_staked
            &&& post.pool(pool_key)->Some_0.data.total_staked == 0
            &&& !post.pool(pool_key)->Some_0.data.is_active
            &&& post.pool(pool_key)->Some_0.lamports + r->Ok_0.amount == pre.pool(
                pool_key,
            )->Some_0.lamports
        }),
{
    law_claim_keeps_invariant(pre, post, r, payer, name, token_account);
    let pool_key = challenge_address_of(pre.program_id@, name)->Some_0.0;
    post.lemma_pool_position(pre.pool_index(pool_key));
}

/// On a well-formed ledger the vault always covers the total, so no claim
/// is refused for insufficient funds.
pub proof fn law_vault_covers_claim(
    pre: Ledger,
    post: Ledger,
    r: Result<Payout, ChallengeError>,
    payer: Address,
    name: Seq<char>,
    token_account: Seq<u8>,
)
    requires
        pre.wf(),
        claimed(pre, post, r, payer, name, token_account),
    ensures
        r != Err::<Payout, ChallengeError>(ChallengeError::InsufficientFunds),
{
}

/// Once a pool has been claimed, every later stake in it and every later
/// claim on it, by any player, is refused as inactive and changes nothing.
pub proof fn law_claim_is_final(
    l0: Ledger,
    l1: Ledger,
    l2: Ledger,
    l3: Ledger,
    r1: Result<Payout, ChallengeError>,
    r2: Result<Address, ChallengeError>,
    r3: Result<Payout, ChallengeError>,
    payer1: Address,
    name: Seq<char>,
    token_account1: Seq<u8>,
    payer2: Address,
    amount2: u64,
    payer3: Address,
    token_account3: Seq<u8>,
)
    requires
        l0.wf(),
        claimed(l0, l1, r1, payer1, name, token_account1),
        r1 is Ok,
        staked(l1, l2, r2, payer2, name, amount2),
        claimed(l1, l3, r3, payer3, name, token_account3),
    ensures
        r2 == Err::<Address, ChallengeError>(ChallengeError::PoolInactive),
        l2 == l1,
        r3 == Err::<Payout, ChallengeError>(ChallengeError::PoolInactive),
        l3 == l1,
{
    law_claim_pays_total(l0, l1, r1, payer1, name, token_account1);
}

/// A creation that is refused changes nothing, and is refused with the same
/// error when it is repeated.
pub proof fn law_refused_create_repeats(
    l0: Ledger,
    l1: Ledger,
    l2: Ledger,
    r1: Result<Address, ChallengeError>,
    r2: Result<Address, ChallengeError>,
    name: String,
    uri: String,
    nft: Address,
    require_stake: u64,
)
    requires
        created(l0, l1, r1, name, uri, nft, require_stake),
        r1 is Err,
        created(l1, l2, r2, name, uri, nft, require_stake),
    ensures
        l1 == l0,
        l2 == l0,
        r2 == r1,
{
}

/// A stake that is refused changes nothing, and is refused with the same
/// error when it is repeated.
pub proof fn law_refused_stake_repeats(
    l0: Ledger,
    l1: Ledger,
    l2: Ledger,
    r1: Result<Address, ChallengeError>,
    r2: Result<Address, ChallengeError>,
    payer: Address,
    name: Seq<char>,
    amount: u64,
)
    requires
        staked(l0, l1, r1, payer, name, amount),
        r1 is Err,
        staked(l1, l2, r2, payer, name, amount),
    ensures
        l1 == l0,
        l2 == l0,
        r2 == r1,
{
}

/// A claim that is refused changes nothing, and is refused with the same
/// error when it is repeated.
pub proof fn law_refused_claim_repeats(
    l0: Ledger,
    l1: Ledger,
    l2: Ledger,
    r1: Result<Payout, ChallengeError>,
    r2: Result<Payout, ChallengeError>,
    payer: Address,
    name: Seq<char>,
    token_account: Seq<u8>,
)
    requires
        claimed(l0, l1, r1, payer, name, token_account),
        r1 is Err,
        claimed(l1, l2, r2, payer, name, token_account),
    ensures
        l1 == l0,
        l2 == l0,
        r2 == r1,
{
}

/// A creation leaves every other pool, and every stake record, as it was.
pub proof fn law_create_touches_nothing_else(
    pre: Ledger,
    post: Ledger,
    r: Result<Address, ChallengeError>,
    name: String,
    uri: String,
    nft: Address,
    require_stake: u64,
    key: Seq<u8>,
)
    requires
        pre.wf(),
        created(pre, post, r, name, uri, nft, require_stake),
        r is Ok ==> key != r->Ok_0@,
    ensures
        post.pool(key) == pre.pool(key),
        post.stakes == pre.stakes,
{
    law_create_keeps_invariant(pre, post, r, name, uri, nft, require_stake);
    if r is Ok {
        if pre.has_pool(key) {
            let j = pre.pool_index(key);
            assert(post.pools@[j] == pre.pools@[j]);
            post.lemma_pool_position(j);
        } else if post.has_pool(key) {
            let j = post.pool_index(key);
            assert(pre.pools@[j].key@ == key);
        }
    }
}

/// A stake changes no pool but the one it names, and no stake record but
/// the one it creates.
pub proof fn law_stake_touches_nothing_else(
    pre: Ledger,
    post: Ledger,
    r: Result<Address, ChallengeError>,
    payer: Address,
    name: Seq<char>,
    amount: u64,
    pool_key: Seq<u8>,
    stake_key: Seq<u8>,
)
    requires
        pre.wf(),
        staked(pre, post, r, payer, name, amount),
        r is Ok ==> pool_key != challenge_address_of(pre.program_id@, name)->Some_0.0,
        r is Ok ==> stake_key != r->Ok_0@,
    ensures
        post.pool(pool_key) == pre.pool(pool_key),
        post.stake(stake_key) == pre.stake(stake_key),
{
    law_stake_keeps_invariant(pre, post, r, payer, name, amount);
    if r is Ok {
        if pre.has_pool(pool_key) {
            let j = pre.pool_index(pool_key);
            assert(post.pools@[j] == pre.pools@[j]);
            post.lemma_pool_position(j);
        } else if post.has_pool(pool_key) {
            let j = post.pool_index(pool_key);
            assert(pre.pools@[j].key@ == pool_key);
        }
        if pre.has_stake(stake_key) {
            let j = pre.stake_index(stake_key);
            assert(post.stakes@[j] == pre.stakes@[j]);
            post.lemma_stake_position(j);
        } else if post.has_stake(stake_key) {
            let j = post.stake_index(stake_key);
            assert(pre.stakes@[j].key@ == stake_key);
        }
    }
}

/// A claim changes no pool but the one it names, and no stake record.
pub proof fn law_claim_touches_nothing_else(
    pre: Ledger,
    post: Ledger,
    r: Result<Payout, ChallengeError>,
    payer: Address,
    name: Seq<char>,
    token_account: Seq<u8>,
    pool_key: Seq<u8>,
)
    requires
        pre.wf(),
        claimed(pre, post, r, payer, name, token_account),
        r is Ok ==> pool_key != challenge_address_of(pre.program_id@, name)->Some_0.0,
    ensures
        post.pool(pool_key) == pre.pool(pool_key),
        post.stakes == pre.stakes,
{
    law_claim_keeps_invariant(pre, post, r, payer, name, token_account);
    if r is Ok {
        if pre.has_pool(pool_key) {
            let j = pre.pool_index(pool_key);
            assert(post.pools@[j] == pre.pools@[j]);
            post.lemma_pool_position(j);
        } else if post.has_pool(pool_key) {
            let j = post.pool_index(pool_key);
            assert(pre.pools@[j].key@ == pool_key);
        }
    }
}

/// A pool that is closed stays exactly as it is under every stake and every
/// claim, whichever challenge they name: nothing leaves the closed state.
pub proof fn law_closed_pool_is_terminal(
    pre: Ledger,
    staked_post: Ledger,
    claimed_post: Ledger,
    r_stake: Result<Address, ChallengeError>,
    r_claim: Result<Payout, ChallengeError>,
    payer: Address,
    name: Seq<char>,
    amount: u64,
    token_account: Seq<u8>,
    key: Seq<u8>,
)
    requires
        pre.wf(),
        staked(pre, staked_post, r_stake, payer, name, amount),
        claimed(pre, claimed_post, r_claim, payer, name, token_account),
        pre.pool(key) is Some,
        !pre.pool(key)->Some_0.data.is_active,
    ensures
        staked_post.pool(key) == pre.pool(key),
        claimed_post.pool(key) == pre.pool(key),
{
    let elsewhere = if r_stake is Ok {
        r_stake->Ok_0@.push(0u8)
    } else {
        Seq::<u8>::empty()
    };
    assert(r_stake is Ok ==> elsewhere.len() != r_stake->Ok_0@.len());
    law_stake_touches_nothing_else(pre, staked_post, r_stake, payer, name, amount, key, elsewhere);
    law_claim_touches_nothing_else(pre, claimed_post, r_claim, payer, name, token_account, key);
}

} // verus!
