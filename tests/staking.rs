use rwa_stockholm::staking::{compute_reward, StakingInfo};
use rwa_stockholm::types::{ContractError, Instruction};

fn s(x: &str) -> String {
    x.to_string()
}

fn pool_with_stake(since: u64) -> StakingInfo {
    let mut p = StakingInfo::new(s("om_token"), 10);
    p.stake_nft(s("collection"), s("nft1"), s("alice"), since);
    p
}

fn reward_of(batch: &[Instruction]) -> u128 {
    match &batch[0] {
        Instruction::TransferToken { amount, .. } => *amount,
        other => panic!("unexpected instruction {:?}", other),
    }
}

#[test]
fn reward_counts_whole_days() {
    assert_eq!(compute_reward(10, 0, 259200), Ok(30));
    assert_eq!(compute_reward(10, 0, 86399), Ok(0));
    assert_eq!(compute_reward(10, 0, 86400), Ok(10));
    assert_eq!(compute_reward(7, 100, 100 + 2 * 86400 + 5), Ok(14));
}

#[test]
fn reward_before_stake_time_is_invalid() {
    assert_eq!(compute_reward(10, 500, 499), Err(ContractError::InvalidTimestamp));
}

#[test]
fn reward_overflow_is_reported() {
    assert_eq!(compute_reward(u128::MAX, 0, 2 * 86400), Err(ContractError::ArithmeticOverflow));
    assert_eq!(compute_reward(u128::MAX, 0, 86400), Ok(u128::MAX));
}

#[test]
fn claim_pays_rate_times_days() {
    let mut p = pool_with_stake(0);
    let batch = p.claim_rewards(&s("nft1"), &s("alice"), 259200).unwrap();
    assert_eq!(
        batch,
        vec![Instruction::TransferToken { contract: s("om_token"), recipient: s("alice"), amount: 30 }]
    );
}

#[test]
fn claim_within_first_day_pays_nothing() {
    let mut p = pool_with_stake(0);
    let batch = p.claim_rewards(&s("nft1"), &s("alice"), 86399).unwrap();
    assert_eq!(reward_of(&batch), 0);
}

#[test]
fn claim_restarts_accrual() {
    let mut p = pool_with_stake(0);
    assert_eq!(reward_of(&p.claim_rewards(&s("nft1"), &s("alice"), 259200).unwrap()), 30);
    assert_eq!(p.staked_assets.load(&s("nft1")).unwrap().staked_since, 259200);
    assert_eq!(reward_of(&p.claim_rewards(&s("nft1"), &s("alice"), 259200).unwrap()), 0);
    assert_eq!(reward_of(&p.claim_rewards(&s("nft1"), &s("alice"), 259200 + 86400).unwrap()), 10);
}

#[test]
fn claim_with_clock_before_stake_fails() {
    let mut p = pool_with_stake(1000);
    assert_eq!(p.claim_rewards(&s("nft1"), &s("alice"), 999), Err(ContractError::InvalidTimestamp));
    assert_eq!(p.staked_assets.load(&s("nft1")).unwrap().staked_since, 1000);
}

#[test]
fn claim_overflow_fails() {
    let mut p = StakingInfo::new(s("om_token"), u128::MAX);
    p.stake_nft(s("collection"), s("nft1"), s("alice"), 0);
    assert_eq!(p.claim_rewards(&s("nft1"), &s("alice"), 2 * 86400), Err(ContractError::ArithmeticOverflow));
    assert_eq!(p.staked_assets.load(&s("nft1")).unwrap().staked_since, 0);
}

#[test]
fn strangers_cannot_unstake_or_claim() {
    let mut p = pool_with_stake(0);
    assert_eq!(p.unstake_nft(&s("nft1"), &s("mallory")), Err(ContractError::Unauthorized));
    assert_eq!(p.claim_rewards(&s("nft1"), &s("mallory"), 259200), Err(ContractError::Unauthorized));
    let pos = p.staked_assets.load(&s("nft1")).unwrap();
    assert_eq!(pos.owner, s("alice"));
    assert_eq!(pos.nft_contract_address, s("collection"));
    assert_eq!(pos.token_id, s("nft1"));
    assert_eq!(pos.staked_since, 0);
    assert_eq!(p.total_staked, 1);
}

#[test]
fn unknown_position_is_not_staked() {
    let mut p = pool_with_stake(0);
    assert_eq!(p.unstake_nft(&s("nft2"), &s("alice")), Err(ContractError::NotStaked));
    assert_eq!(p.claim_rewards(&s("nft2"), &s("alice"), 10), Err(ContractError::NotStaked));
}

#[test]
fn unstake_returns_the_asset() {
    let mut p = pool_with_stake(0);
    let batch = p.unstake_nft(&s("nft1"), &s("alice")).unwrap();
    assert_eq!(
        batch,
        vec![Instruction::TransferNft { contract: s("collection"), recipient: s("alice"), token_id: s("nft1") }]
    );
    assert_eq!(p.total_staked, 0);
    assert!(!p.staked_assets.contains(&s("nft1")));
}

#[test]
fn restake_restarts_from_second_stake() {
    let mut p = pool_with_stake(100);
    p.unstake_nft(&s("nft1"), &s("alice")).unwrap();
    p.stake_nft(s("collection"), s("nft1"), s("alice"), 5 * 86400);
    assert_eq!(p.staked_assets.load(&s("nft1")).unwrap().staked_since, 5 * 86400);
    assert_eq!(reward_of(&p.claim_rewards(&s("nft1"), &s("alice"), 5 * 86400).unwrap()), 0);
    assert_eq!(reward_of(&p.claim_rewards(&s("nft1"), &s("alice"), 6 * 86400).unwrap()), 10);
}

#[test]
fn staked_count_tracks_positions() {
    let mut p = pool_with_stake(0);
    p.stake_nft(s("collection"), s("nft1"), s("bob"), 50);
    assert_eq!(p.total_staked, 1);
    assert_eq!(p.staked_assets.load(&s("nft1")).unwrap().owner, s("bob"));
    p.stake_nft(s("collection"), s("nft2"), s("bob"), 60);
    assert_eq!(p.total_staked, 2);
    p.unstake_nft(&s("nft1"), &s("bob")).unwrap();
    assert_eq!(p.total_staked, 1);
    assert_eq!(p.staked_assets.len(), 1);
}
