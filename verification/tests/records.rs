use anchor_lang::prelude::Pubkey;
use challenge_registry::address::{challenge_address, player_address};
use challenge_registry::token::proof_is_valid;
use challenge_registry::{
    claim_challenge, create_challenge, stake_challenge, Address, Challenge, ChallengeError,
    ClaimChallenge, Ledger, Payout, PlayerMetadata, StakeChallenge, TokenHolding,
};

fn addr(tag: u8) -> Address {
    Address::new([tag; 32])
}

#[test]
fn addresses_compare_by_their_bytes() {
    let mut bytes = [3u8; 32];
    let a = Address::new(bytes);
    assert!(a.same_as(&addr(3)));
    bytes[31] = 4;
    assert!(!Address::new(bytes).same_as(&a));
    bytes[31] = 3;
    bytes[0] = 0;
    assert!(!Address::new(bytes).same_as(&a));
}

#[test]
fn challenge_address_is_the_program_address_of_tag_and_name() {
    let program = addr(9);
    let (key, bump) = challenge_address(&program, "race1").unwrap();
    let (expected, expected_bump) = Pubkey::find_program_address(
        &[b"challenge", "race1".as_bytes()],
        &Pubkey::new_from_array(program.bytes),
    );
    assert_eq!(key.bytes, expected.to_bytes());
    assert_eq!(bump, expected_bump);
    assert_ne!(key, program);
    assert_eq!(challenge_address(&program, "race1"), Some((key, bump)));
    assert_ne!(challenge_address(&program, "race2").unwrap().0, key);
    assert_ne!(challenge_address(&addr(8), "race1").unwrap().0, key);
}

#[test]
fn player_address_is_the_program_address_of_tag_player_and_name() {
    let program = addr(9);
    let player = addr(1);
    let (key, bump) = player_address(&program, &player, "race1").unwrap();
    let (expected, expected_bump) = Pubkey::find_program_address(
        &[b"player", &player.bytes, "race1".as_bytes()],
        &Pubkey::new_from_array(program.bytes),
    );
    assert_eq!(key.bytes, expected.to_bytes());
    assert_eq!(bump, expected_bump);
    assert_ne!(player_address(&program, &addr(2), "race1").unwrap().0, key);
    assert_ne!(challenge_address(&program, "race1").unwrap().0, key);
}

#[test]
fn long_names_have_no_address() {
    let name = "x".repeat(33);
    assert_eq!(challenge_address(&addr(9), &name), None);
    assert_eq!(player_address(&addr(9), &addr(1), &name), None);
    let two_bytes_each = "é".repeat(17);
    assert_eq!(challenge_address(&addr(9), &two_bytes_each), None);
    assert!(challenge_address(&addr(9), &"é".repeat(16)).is_some());
    assert!(challenge_address(&addr(9), "").is_some());
}

fn packed(mint: [u8; 32], owner: [u8; 32], amount: [u8; 8]) -> Vec<u8> {
    let mut data = vec![0u8; 165];
    data[0..32].copy_from_slice(&mint);
    data[32..64].copy_from_slice(&owner);
    data[64..72].copy_from_slice(&amount);
    data[108] = 1;
    data
}

#[test]
fn proof_is_read_from_its_place_in_the_data() {
    let mut mint = [0u8; 32];
    let mut owner = [0u8; 32];
    for i in 0..32 {
        mint[i] = 100 + i as u8;
        owner[i] = 200 - i as u8;
    }
    let data = packed(mint, owner, [0, 0, 0, 0, 0, 0, 0, 1]);
    let claimant = Address::new(owner);
    let asset = Address::new(mint);
    assert!(proof_is_valid(&data, &claimant, &asset));
    assert!(!proof_is_valid(&data, &asset, &claimant));
    assert!(!proof_is_valid(&data, &claimant, &claimant));
    assert!(!proof_is_valid(&data, &asset, &asset));
    assert!(!proof_is_valid(&data[..164], &claimant, &asset));
    assert!(!proof_is_valid(&[], &claimant, &asset));
    let nothing = packed(mint, owner, [0; 8]);
    assert!(!proof_is_valid(&nothing, &claimant, &asset));
    let mut uninitialized = data.clone();
    uninitialized[108] = 0;
    assert!(!proof_is_valid(&uninitialized, &claimant, &asset));
}

#[test]
fn claim_pays_whatever_the_proof_holds_above_zero() {
    let nft = addr(7);
    let mut ledger = Ledger::new(addr(9));
    create_challenge(&mut ledger, addr(1), "race1".to_string(), "u".to_string(), nft, 10).unwrap();
    stake_challenge(&mut ledger, addr(1), "race1".to_string(), 77).unwrap();
    let data = packed(nft.bytes, addr(1).bytes, [0, 0, 0, 0, 0, 0, 0, 0x80]);
    let paid = claim_challenge(&mut ledger, addr(1), "race1".to_string(), &data).unwrap();
    assert_eq!(paid.amount, 77);
}

#[test]
fn ledgers_made_by_the_instructions_are_well_formed() {
    let nft = addr(7);
    let mut ledger = Ledger::new(addr(9));
    assert!(ledger.is_well_formed());
    create_challenge(&mut ledger, addr(1), "race1".to_string(), "u".to_string(), nft, 10).unwrap();
    create_challenge(&mut ledger, addr(1), "race2".to_string(), "u".to_string(), nft, 10).unwrap();
    assert!(ledger.is_well_formed());
    stake_challenge(&mut ledger, addr(1), "race1".to_string(), 77).unwrap();
    stake_challenge(&mut ledger, addr(2), "race1".to_string(), 3).unwrap();
    assert!(ledger.is_well_formed());
    let data = packed(nft.bytes, addr(2).bytes, [1, 0, 0, 0, 0, 0, 0, 0]);
    claim_challenge(&mut ledger, addr(2), "race1".to_string(), &data).unwrap();
    assert!(ledger.is_well_formed());
}

#[test]
fn broken_ledgers_are_told_apart() {
    let mut ledger = Ledger::new(addr(9));
    create_challenge(&mut ledger, addr(1), "race1".to_string(), "u".to_string(), addr(7), 10)
        .unwrap();
    stake_challenge(&mut ledger, addr(1), "race1".to_string(), 77).unwrap();

    let mut twice = ledger.clone();
    let copy = twice.pools[0].clone();
    twice.pools.push(copy);
    assert!(!twice.is_well_formed());

    let mut stake_twice = ledger.clone();
    let copy = stake_twice.stakes[0];
    stake_twice.stakes.push(copy);
    assert!(!stake_twice.is_well_formed());

    let mut uncovered = ledger.clone();
    uncovered.pools[0].lamports = 76;
    assert!(!uncovered.is_well_formed());

    let mut closed_with_total = ledger.clone();
    closed_with_total.pools[0].data.is_active = false;
    assert!(!closed_with_total.is_well_formed());

    let mut overfull = ledger.clone();
    overfull.pools[0].lamports = 78;
    assert!(overfull.is_well_formed());
}

#[test]
fn holding_authorizes_its_owner_for_its_mint_only() {
    let held = TokenHolding { mint: addr(7), owner: addr(1), amount: 1 };
    assert!(held.authorizes(&addr(1), &addr(7)));
    assert!(!held.authorizes(&addr(2), &addr(7)));
    assert!(!held.authorizes(&addr(1), &addr(8)));
    let empty = TokenHolding { mint: addr(7), owner: addr(1), amount: 0 };
    assert!(!empty.authorizes(&addr(1), &addr(7)));
}

#[test]
fn open_gives_the_fresh_record_or_refuses() {
    let ctx = Challenge { payer: addr(1), pda: addr(5), bump: 254, occupied: false };
    let record = ctx.open("race1".to_string(), "uri".to_string(), addr(7), 1000).unwrap();
    assert_eq!(record.name, "race1");
    assert_eq!(record.uri, "uri");
    assert_eq!(record.nft, addr(7));
    assert_eq!(record.total_staked, 0);
    assert_eq!(record.require_stake, 1000);
    assert!(record.is_active);
    assert_eq!(record.bump, 254);
    let taken = Challenge { occupied: true, ..ctx };
    let r = taken.open("race1".to_string(), "uri".to_string(), addr(7), 1000);
    assert_eq!(r.err(), Some(ChallengeError::DuplicateChallenge));
}

#[test]
fn commit_checks_in_order_and_adds() {
    let ctx = StakeChallenge {
        payer: addr(1),
        is_active: true,
        total_staked: 40,
        lamports: 45,
        bump: 3,
        occupied: false,
    };
    let receipt = ctx.commit(2).unwrap();
    assert_eq!(receipt.total_staked, 42);
    assert_eq!(receipt.lamports, 47);
    assert_eq!(receipt.record.player, addr(1));
    assert_eq!(receipt.record.stake_amount, 2);
    assert_eq!(receipt.record.bump, 3);
    let closed = StakeChallenge { is_active: false, occupied: true, ..ctx };
    assert_eq!(closed.commit(2).err(), Some(ChallengeError::PoolInactive));
    let again = StakeChallenge { occupied: true, ..ctx };
    assert_eq!(again.commit(u64::MAX).err(), Some(ChallengeError::DuplicateStake));
    assert_eq!(ctx.commit(u64::MAX - 44).err(), Some(ChallengeError::StakeOverflow));
    assert_eq!(ctx.commit(u64::MAX - 45).unwrap().lamports, u64::MAX);
}

#[test]
fn settle_checks_in_order_and_pays_the_total() {
    let stake = PlayerMetadata { player: addr(1), stake_amount: 5, bump: 1 };
    let ctx = ClaimChallenge {
        payer: addr(1),
        is_active: true,
        nft: addr(7),
        total_staked: 500,
        lamports: 520,
        player_pda: Some(stake),
    };
    let held = TokenHolding { mint: addr(7), owner: addr(1), amount: 1 };
    assert_eq!(
        ctx.settle(Some(held)),
        Ok(Payout { recipient: addr(1), amount: 500, lamports_left: 20 })
    );
    let closed = ClaimChallenge { is_active: false, player_pda: None, ..ctx };
    assert_eq!(closed.settle(None), Err(ChallengeError::PoolInactive));
    let no_stake = ClaimChallenge { player_pda: None, ..ctx };
    assert_eq!(no_stake.settle(None), Err(ChallengeError::NoStake));
    let zero = PlayerMetadata { stake_amount: 0, ..stake };
    let zero_stake = ClaimChallenge { player_pda: Some(zero), ..ctx };
    assert_eq!(zero_stake.settle(Some(held)), Err(ChallengeError::NoStake));
    assert_eq!(ctx.settle(None), Err(ChallengeError::InvalidProof));
    let foreign = TokenHolding { owner: addr(2), ..held };
    assert_eq!(ctx.settle(Some(foreign)), Err(ChallengeError::InvalidProof));
    let short = ClaimChallenge { lamports: 499, ..ctx };
    assert_eq!(short.settle(Some(held)), Err(ChallengeError::InsufficientFunds));
    assert_eq!(short.settle(None), Err(ChallengeError::InvalidProof));
}
