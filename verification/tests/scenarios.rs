use staking_factory::account::{
    ConfigHistory, Factory, Member, PendingWithdrawal, StakesHistory, Staking,
};
use staking_factory::error::StakingError;
use staking_factory::instructions::{
    change_config, claim_reward, create_staking, deposit, end_unstake, initialize,
    register_member, stake, start_unstake, withdraw, RewardPayout,
};
use staking_factory::reward::{calculate_rewards, pending_rewards, RewardParams};

const ADMIN: [u8; 32] = [7u8; 32];
const STAKE_MINT: [u8; 32] = [1u8; 32];
const REWARD_MINT: [u8; 32] = [2u8; 32];

fn open_pool(
    ts: u32,
    unstake_timelock: u32,
    params: RewardParams,
) -> (Factory, Staking, ConfigHistory, StakesHistory) {
    let mut factory = initialize(ADMIN);
    let (staking, config, history) = create_staking(
        ts,
        &mut factory,
        ADMIN,
        STAKE_MINT,
        REWARD_MINT,
        unstake_timelock,
        params,
    )
    .unwrap();
    (factory, staking, config, history)
}

const OWNER: [u8; 32] = [9u8; 32];

fn funded_member(staking: &Staking, amount: u64) -> (Member, PendingWithdrawal) {
    let (mut member, pending) = register_member(staking, OWNER);
    deposit(&mut member, amount).unwrap();
    (member, pending)
}

#[test]
fn interest_rate_claim_pays_member_and_treasury() {
    let params = RewardParams::InterestRate { num: 1, denom: 1_000_000 };
    let (_, mut staking, config, mut history) = open_pool(1_000, 0, params);
    let (mut member, _) = funded_member(&staking, 1_000_000);
    stake(1_000, &mut staking, &config, &mut member, &mut history, 1_000_000).unwrap();
    assert_eq!(member.stake_amount, 1_000_000);
    assert_eq!(member.available_amount, 0);
    assert_eq!(staking.stakes_sum, 1_000_000);
    assert_eq!(pending_rewards(1_100, &staking, &config, &member, &history), Ok(100));
    let payout = claim_reward(1_100, &staking, &config, &mut member, &mut history).unwrap();
    assert_eq!(payout, RewardPayout { amount_to_beneficiary: 97, factory_fee: 3 });
    assert_eq!(member.rewards_amount, 0);
    assert_eq!(member.last_reward_ts, 1_100);
}

#[test]
fn proportional_shares_use_the_first_snapshot() {
    let params = RewardParams::Proportional { total_amount: 1_000, reward_period: 60 };
    let (_, mut staking, config, mut history) = open_pool(1_000, 10, params);
    let (mut a, mut a_pending) = funded_member(&staking, 300);
    let (mut b, _) = funded_member(&staking, 700);
    stake(1_010, &mut staking, &config, &mut a, &mut history, 300).unwrap();
    stake(1_020, &mut staking, &config, &mut b, &mut history, 700).unwrap();
    assert_eq!(staking.stakes_sum, 1_000);
    assert!(history.stakes_sums.is_empty());

    let owed_a = calculate_rewards(1_060, &staking, &config, &mut a, &mut history);
    assert_eq!(owed_a, Ok(300));
    assert_eq!(history.stakes_sums, vec![Some(1_000)]);

    start_unstake(1_061, &mut staking, &config, &mut a, &mut a_pending, &mut history, 300)
        .unwrap();
    assert_eq!(staking.stakes_sum, 700);

    let owed_b = calculate_rewards(1_070, &staking, &config, &mut b, &mut history);
    assert_eq!(owed_b, Ok(700));
    assert_eq!(history.stakes_sums, vec![Some(1_000)]);
}

#[test]
fn proportional_shares_do_not_depend_on_claim_order() {
    let params = RewardParams::Proportional { total_amount: 1_000, reward_period: 60 };
    let (_, mut staking, config, mut history) = open_pool(1_000, 10, params);
    let (mut a, _) = funded_member(&staking, 300);
    let (mut b, mut b_pending) = funded_member(&staking, 700);
    stake(1_010, &mut staking, &config, &mut a, &mut history, 300).unwrap();
    stake(1_020, &mut staking, &config, &mut b, &mut history, 700).unwrap();

    let payout_b = claim_reward(1_060, &staking, &config, &mut b, &mut history).unwrap();
    assert_eq!(payout_b.amount_to_beneficiary + payout_b.factory_fee, 700);
    assert_eq!(payout_b, RewardPayout { amount_to_beneficiary: 679, factory_fee: 21 });
    start_unstake(1_065, &mut staking, &config, &mut b, &mut b_pending, &mut history, 700)
        .unwrap();
    assert_eq!(staking.stakes_sum, 300);

    let payout_a = claim_reward(1_100, &staking, &config, &mut a, &mut history).unwrap();
    assert_eq!(payout_a.amount_to_beneficiary + payout_a.factory_fee, 300);
    assert_eq!(payout_a, RewardPayout { amount_to_beneficiary: 291, factory_fee: 9 });
}

#[test]
fn unstake_lifecycle_errors() {
    let params = RewardParams::InterestRate { num: 1, denom: 1_000 };
    let (_, mut staking, config, mut history) = open_pool(1_000, 500, params);
    let (mut member, mut pending) = funded_member(&staking, 1_000);
    stake(1_000, &mut staking, &config, &mut member, &mut history, 1_000).unwrap();

    assert_eq!(
        end_unstake(1_001, &mut member, &mut pending),
        Err(StakingError::UnstakeNotActive)
    );
    start_unstake(1_100, &mut staking, &config, &mut member, &mut pending, &mut history, 400)
        .unwrap();
    assert_eq!(
        pending,
        PendingWithdrawal {
            staking_id: 0,
            beneficiary: OWNER,
            active: true,
            end_ts: 1_600,
            amount: 400,
        }
    );
    assert_eq!(member.stake_amount, 600);
    assert_eq!(member.pending_amount, 400);
    assert_eq!(staking.stakes_sum, 600);
    assert_eq!(member.rewards_amount, 100);

    let member_before = member;
    let staking_sum_before = staking.stakes_sum;
    assert_eq!(
        start_unstake(1_200, &mut staking, &config, &mut member, &mut pending, &mut history, 100),
        Err(StakingError::UnstakeAlreadyActive)
    );
    assert_eq!(member, member_before);
    assert_eq!(staking.stakes_sum, staking_sum_before);

    assert_eq!(
        end_unstake(1_599, &mut member, &mut pending),
        Err(StakingError::UnstakeTimelockNotElapsed)
    );
    assert_eq!(member, member_before);
    assert!(pending.active);

    assert_eq!(end_unstake(1_600, &mut member, &mut pending), Ok(()));
    assert_eq!(member.available_amount, 400);
    assert_eq!(member.pending_amount, 0);
    assert_eq!(member.stake_amount, 600);
    assert!(!pending.active);
    assert_eq!(member.last_reward_ts, 1_100);

    assert_eq!(withdraw(&mut member, 401), Err(StakingError::InsufficientBalance));
    assert_eq!(withdraw(&mut member, 400), Ok(()));
    assert_eq!(member.available_amount, 0);
}

#[test]
fn settling_twice_at_one_instant_yields_nothing_more() {
    let params = RewardParams::InterestRate { num: 3, denom: 7 };
    let (_, mut staking, config, mut history) = open_pool(50, 0, params);
    let (mut member, _) = funded_member(&staking, 70);
    stake(60, &mut staking, &config, &mut member, &mut history, 70).unwrap();
    assert_eq!(calculate_rewards(160, &staking, &config, &mut member, &mut history), Ok(3_000));
    assert_eq!(member.last_reward_ts, 160);
    let settled = member;
    assert_eq!(calculate_rewards(160, &staking, &config, &mut member, &mut history), Ok(0));
    assert_eq!(member, settled);
    assert_eq!(calculate_rewards(100, &staking, &config, &mut member, &mut history), Ok(0));
    assert_eq!(member, settled);
}

#[test]
fn first_settlement_owes_nothing() {
    let params = RewardParams::InterestRate { num: 1, denom: 1 };
    let (_, mut staking, config, mut history) = open_pool(10, 0, params);
    let (mut member, _) = funded_member(&staking, 500);
    assert_eq!(member.last_reward_ts, 0);
    assert_eq!(calculate_rewards(5_000, &staking, &config, &mut member, &mut history), Ok(0));
    assert_eq!(member.last_reward_ts, 5_000);
    stake(5_000, &mut staking, &config, &mut member, &mut history, 500).unwrap();
    assert_eq!(calculate_rewards(5_010, &staking, &config, &mut member, &mut history), Ok(5_000));
}

#[test]
fn claim_without_reward_is_rejected_and_changes_nothing() {
    let params = RewardParams::InterestRate { num: 1, denom: 1 };
    let (_, staking, config, mut history) = open_pool(10, 0, params);
    let (mut member, _) = funded_member(&staking, 500);
    let before = member;
    assert_eq!(
        claim_reward(20, &staking, &config, &mut member, &mut history),
        Err(StakingError::NothingToClaim)
    );
    assert_eq!(member, before);
}

#[test]
fn validate_fields_rejects_zero_period_and_denominator() {
    assert_eq!(
        RewardParams::InterestRate { num: 1, denom: 0 }.validate_fields(),
        Err(StakingError::InvalidConfiguration)
    );
    assert_eq!(
        RewardParams::Proportional { total_amount: 1, reward_period: 0 }.validate_fields(),
        Err(StakingError::InvalidConfiguration)
    );
    assert_eq!(
        RewardParams::Fixed { required_amount: 1, required_period: 0, reward_amount: 1 }
            .validate_fields(),
        Err(StakingError::InvalidConfiguration)
    );
    assert_eq!(RewardParams::default().validate_fields(), Err(StakingError::InvalidConfiguration));
    assert_eq!(RewardParams::InterestRate { num: 0, denom: 1 }.validate_fields(), Ok(()));
    assert_eq!(
        RewardParams::Proportional { total_amount: 0, reward_period: 1 }.validate_fields(),
        Ok(())
    );
    assert_eq!(
        RewardParams::Fixed { required_amount: 0, required_period: 1, reward_amount: 0 }
            .validate_fields(),
        Ok(())
    );
}

#[test]
fn create_staking_counts_pools_and_validates() {
    let mut factory = initialize(ADMIN);
    assert_eq!(factory.stakings_count, 0);
    let bad = RewardParams::Proportional { total_amount: 5, reward_period: 0 };
    let refused = create_staking(1, &mut factory, ADMIN, STAKE_MINT, REWARD_MINT, 9, bad);
    assert_eq!(refused.err(), Some(StakingError::InvalidConfiguration));
    assert_eq!(factory.stakings_count, 0);

    let good = RewardParams::Proportional { total_amount: 5, reward_period: 3 };
    let (staking, config, history) =
        create_staking(77, &mut factory, ADMIN, STAKE_MINT, REWARD_MINT, 9, good).unwrap();
    assert_eq!(factory.stakings_count, 1);
    assert_eq!(staking.id, 0);
    assert_eq!(staking.unstake_timelock, 9);
    assert_eq!(staking.reward_params, good);
    assert_eq!(staking.stakes_sum, 0);
    assert_eq!(staking.stake_mint, STAKE_MINT);
    assert_eq!(staking.reward_mint, REWARD_MINT);
    assert_eq!(config.reward_params, vec![good]);
    assert_eq!(config.start_timestamps, vec![77]);
    assert!(history.stakes_sums.is_empty());
    assert_eq!(history.offsets, vec![0]);

    let (second, _, _) =
        create_staking(78, &mut factory, ADMIN, STAKE_MINT, REWARD_MINT, 9, good).unwrap();
    assert_eq!(second.id, 1);
    assert_eq!(factory.stakings_count, 2);
    let (member, pending) = register_member(&second, OWNER);
    assert_eq!(
        member,
        Member {
            staking_id: 1,
            beneficiary: OWNER,
            available_amount: 0,
            stake_amount: 0,
            pending_amount: 0,
            rewards_amount: 0,
            last_reward_ts: 0,
        }
    );
    assert_eq!(
        pending,
        PendingWithdrawal {
            staking_id: 1,
            beneficiary: OWNER,
            active: false,
            end_ts: 0,
            amount: 0,
        }
    );

    factory.stakings_count = u16::MAX;
    let full = create_staking(79, &mut factory, ADMIN, STAKE_MINT, REWARD_MINT, 9, good);
    assert_eq!(full.err(), Some(StakingError::ArithmeticOverflow));
    assert_eq!(factory.stakings_count, u16::MAX);
}

#[test]
fn change_config_refuses_another_kind() {
    let params = RewardParams::InterestRate { num: 1, denom: 10 };
    let (_, mut staking, mut config, mut history) = open_pool(100, 0, params);
    let other = RewardParams::Fixed { required_amount: 1, required_period: 5, reward_amount: 1 };
    assert_eq!(
        change_config(200, &mut staking, &mut config, &mut history, Some(other)),
        Err(StakingError::InvalidConfiguration)
    );
    assert_eq!(config.reward_params, vec![params]);
    assert_eq!(config.start_timestamps, vec![100]);
    assert_eq!(history.offsets, vec![0]);
    assert_eq!(staking.reward_params, params);

    let zero = RewardParams::InterestRate { num: 1, denom: 0 };
    assert_eq!(
        change_config(200, &mut staking, &mut config, &mut history, Some(zero)),
        Err(StakingError::InvalidConfiguration)
    );
    assert_eq!(config.reward_params, vec![params]);

    assert_eq!(change_config(200, &mut staking, &mut config, &mut history, None), Ok(()));
    assert_eq!(config.reward_params, vec![params]);
    assert_eq!(config.start_timestamps, vec![100]);
}

#[test]
fn change_config_opens_an_epoch_and_rewards_follow_each_rate() {
    let first = RewardParams::InterestRate { num: 1, denom: 10 };
    let second = RewardParams::InterestRate { num: 2, denom: 10 };
    let (_, mut staking, mut config, mut history) = open_pool(100, 0, first);
    let (mut member, _) = funded_member(&staking, 1_000);
    stake(100, &mut staking, &config, &mut member, &mut history, 1_000).unwrap();

    assert_eq!(change_config(200, &mut staking, &mut config, &mut history, Some(second)), Ok(()));
    assert_eq!(config.reward_params, vec![first, second]);
    assert_eq!(config.start_timestamps, vec![100, 200]);
    assert_eq!(history.offsets, vec![0, 0]);
    assert_eq!(staking.reward_params, second);

    // 100 s at 1/10 and 50 s at 2/10 on a stake of 1000.
    assert_eq!(
        calculate_rewards(250, &staking, &config, &mut member, &mut history),
        Ok(10_000 + 10_000)
    );
    assert_eq!(member.last_reward_ts, 250);
}

#[test]
fn change_config_rewrites_an_epoch_that_has_not_run() {
    let first = RewardParams::Proportional { total_amount: 100, reward_period: 60 };
    let second = RewardParams::Proportional { total_amount: 200, reward_period: 30 };
    let third = RewardParams::Proportional { total_amount: 400, reward_period: 15 };
    let (_, mut staking, mut config, mut history) = open_pool(1_000, 0, first);

    // 70 s into the first epoch: the next one starts at the end of period 2.
    assert_eq!(change_config(1_070, &mut staking, &mut config, &mut history, Some(second)), Ok(()));
    assert_eq!(config.reward_params, vec![first, second]);
    assert_eq!(config.start_timestamps, vec![1_000, 1_120]);
    assert_eq!(history.offsets, vec![0, 2]);

    // The second epoch has not started: it is rewritten.
    assert_eq!(change_config(1_100, &mut staking, &mut config, &mut history, Some(third)), Ok(()));
    assert_eq!(config.reward_params, vec![first, third]);
    assert_eq!(config.start_timestamps, vec![1_000, 1_120]);
    assert_eq!(history.offsets, vec![0, 2]);
    assert_eq!(staking.reward_params, third);

    // At its very start it is still rewritten.
    assert_eq!(change_config(1_120, &mut staking, &mut config, &mut history, Some(second)), Ok(()));
    assert_eq!(config.reward_params, vec![first, second]);
    assert_eq!(config.start_timestamps, vec![1_000, 1_120]);

    // On a period boundary the next epoch starts at once.
    assert_eq!(change_config(1_180, &mut staking, &mut config, &mut history, Some(third)), Ok(()));
    assert_eq!(config.reward_params, vec![first, second, third]);
    assert_eq!(config.start_timestamps, vec![1_000, 1_120, 1_180]);
    assert_eq!(history.offsets, vec![0, 2, 4]);
}

#[test]
fn change_config_reports_an_epoch_start_out_of_range() {
    let first = RewardParams::Proportional { total_amount: 100, reward_period: 1_000 };
    let second = RewardParams::Proportional { total_amount: 100, reward_period: 10 };
    let (_, mut staking, mut config, mut history) = open_pool(u32::MAX - 1_500, 0, first);
    assert_eq!(
        change_config(u32::MAX - 400, &mut staking, &mut config, &mut history, Some(second)),
        Err(StakingError::ArithmeticOverflow)
    );
    assert_eq!(config.reward_params, vec![first]);
    assert_eq!(staking.reward_params, first);
}

#[test]
fn proportional_rewards_across_epochs() {
    let first = RewardParams::Proportional { total_amount: 100, reward_period: 60 };
    let second = RewardParams::Proportional { total_amount: 50, reward_period: 30 };
    let (_, mut staking, mut config, mut history) = open_pool(1_000, 0, first);
    let (mut a, _) = funded_member(&staking, 10);
    let (mut b, _) = funded_member(&staking, 30);
    stake(1_000, &mut staking, &config, &mut a, &mut history, 10).unwrap();
    stake(1_001, &mut staking, &config, &mut b, &mut history, 30).unwrap();
    change_config(1_070, &mut staking, &mut config, &mut history, Some(second)).unwrap();
    assert_eq!(config.start_timestamps, vec![1_000, 1_120]);

    // Two periods of the first epoch and three of the second one.
    let owed_a = calculate_rewards(1_215, &staking, &config, &mut a, &mut history);
    assert_eq!(owed_a, Ok(2 * (10 * 100 / 40) + 3 * (10 * 50 / 40)));
    assert_eq!(history.stakes_sums, vec![Some(40); 5]);
    assert_eq!(a.last_reward_ts, 1_215);

    // A later stake does not move the recorded aggregates.
    let (mut c, _) = funded_member(&staking, 60);
    stake(1_216, &mut staking, &config, &mut c, &mut history, 60).unwrap();
    assert_eq!(staking.stakes_sum, 100);
    let owed_b = calculate_rewards(1_240, &staking, &config, &mut b, &mut history);
    assert_eq!(owed_b, Ok(2 * (30 * 100 / 40) + 3 * (30 * 50 / 40) + 30 * 50 / 100));
    assert_eq!(
        history.stakes_sums,
        vec![Some(40), Some(40), Some(40), Some(40), Some(40), Some(100)]
    );
}

#[test]
fn a_late_member_leaves_earlier_periods_open() {
    let params = RewardParams::Proportional { total_amount: 100, reward_period: 10 };
    let (_, mut staking, config, mut history) = open_pool(1_000, 0, params);
    let (mut early, _) = funded_member(&staking, 50);
    let (mut late, _) = funded_member(&staking, 50);
    stake(1_000, &mut staking, &config, &mut early, &mut history, 50).unwrap();
    stake(1_025, &mut staking, &config, &mut late, &mut history, 50).unwrap();
    assert_eq!(staking.stakes_sum, 100);

    // The late member spans period 2 only.
    assert_eq!(calculate_rewards(1_030, &staking, &config, &mut late, &mut history), Ok(50));
    assert_eq!(history.stakes_sums, vec![None, None, Some(100)]);

    let (mut third, _) = funded_member(&staking, 100);
    stake(1_031, &mut staking, &config, &mut third, &mut history, 100).unwrap();
    assert_eq!(staking.stakes_sum, 200);

    // The early member fixes periods 0 and 1 now and finds period 2 fixed.
    assert_eq!(
        calculate_rewards(1_035, &staking, &config, &mut early, &mut history),
        Ok(25 + 25 + 50)
    );
    assert_eq!(history.stakes_sums, vec![Some(200), Some(200), Some(100)]);
}

#[test]
fn proportional_period_with_no_stake_pays_nothing() {
    let params = RewardParams::Proportional { total_amount: 100, reward_period: 10 };
    let (_, staking, config, mut history) = open_pool(1_000, 0, params);
    let (mut member, _) = register_member(&staking, OWNER);
    assert_eq!(calculate_rewards(1_001, &staking, &config, &mut member, &mut history), Ok(0));
    assert_eq!(calculate_rewards(1_020, &staking, &config, &mut member, &mut history), Ok(0));
    assert_eq!(history.stakes_sums, vec![Some(0), Some(0)]);
}

#[test]
fn fixed_formula_pays_whole_periods_above_the_threshold() {
    let params =
        RewardParams::Fixed { required_amount: 100, required_period: 30, reward_amount: 7 };
    let (_, mut staking, config, mut history) = open_pool(1_000, 0, params);
    let (mut big, _) = funded_member(&staking, 100);
    let (mut small, _) = funded_member(&staking, 99);
    stake(1_000, &mut staking, &config, &mut big, &mut history, 100).unwrap();
    stake(1_000, &mut staking, &config, &mut small, &mut history, 99).unwrap();

    assert_eq!(pending_rewards(1_029, &staking, &config, &big, &history), Ok(0));
    assert_eq!(pending_rewards(1_030, &staking, &config, &big, &history), Ok(7));
    assert_eq!(calculate_rewards(1_095, &staking, &config, &mut big, &mut history), Ok(21));
    assert_eq!(big.last_reward_ts, 1_095);
    assert_eq!(calculate_rewards(1_095, &staking, &config, &mut small, &mut history), Ok(0));
    assert_eq!(small.last_reward_ts, 1_095);
    assert!(history.stakes_sums.is_empty());
}

#[test]
fn overflow_is_an_error_and_nothing_is_written() {
    let params = RewardParams::InterestRate { num: u64::MAX, denom: 1 };
    let (_, mut staking, config, mut history) = open_pool(1_000, 0, params);
    let (mut member, mut pending) = funded_member(&staking, 10);
    stake(1_000, &mut staking, &config, &mut member, &mut history, 5).unwrap();
    let before = member;
    assert_eq!(
        calculate_rewards(1_010, &staking, &config, &mut member, &mut history),
        Err(StakingError::ArithmeticOverflow)
    );
    assert_eq!(member, before);
    assert_eq!(
        stake(1_010, &mut staking, &config, &mut member, &mut history, 5),
        Err(StakingError::ArithmeticOverflow)
    );
    assert_eq!(member, before);
    assert_eq!(staking.stakes_sum, 5);
    assert_eq!(
        start_unstake(1_010, &mut staking, &config, &mut member, &mut pending, &mut history, 5),
        Err(StakingError::ArithmeticOverflow)
    );
    assert_eq!(member, before);
    assert!(!pending.active);
    assert_eq!(
        claim_reward(1_010, &staking, &config, &mut member, &mut history),
        Err(StakingError::ArithmeticOverflow)
    );
    assert_eq!(member, before);

    let (mut rich, _) = funded_member(&staking, u64::MAX);
    assert_eq!(deposit(&mut rich, 1), Err(StakingError::ArithmeticOverflow));
    assert_eq!(rich.available_amount, u64::MAX);
}

#[test]
fn stake_and_unstake_need_the_balance() {
    let params = RewardParams::InterestRate { num: 1, denom: 1 };
    let (_, mut staking, config, mut history) = open_pool(1_000, 0, params);
    let (mut member, mut pending) = funded_member(&staking, 10);
    assert_eq!(
        stake(1_000, &mut staking, &config, &mut member, &mut history, 11),
        Err(StakingError::InsufficientBalance)
    );
    assert_eq!(member.last_reward_ts, 0);
    stake(1_000, &mut staking, &config, &mut member, &mut history, 10).unwrap();
    assert_eq!(
        start_unstake(1_000, &mut staking, &config, &mut member, &mut pending, &mut history, 11),
        Err(StakingError::InsufficientBalance)
    );
    assert_eq!(member.stake_amount, 10);
    assert_eq!(staking.stakes_sum, 10);
}

#[test]
fn aggregate_stake_is_the_sum_of_member_stakes() {
    let params = RewardParams::InterestRate { num: 1, denom: 100 };
    let (_, mut staking, config, mut history) = open_pool(1_000, 5, params);
    let (mut a, mut a_pending) = funded_member(&staking, 500);
    let (mut b, mut b_pending) = funded_member(&staking, 500);
    stake(1_001, &mut staking, &config, &mut a, &mut history, 200).unwrap();
    assert_eq!(staking.stakes_sum, a.stake_amount + b.stake_amount);
    stake(1_002, &mut staking, &config, &mut b, &mut history, 350).unwrap();
    assert_eq!(staking.stakes_sum, a.stake_amount + b.stake_amount);
    start_unstake(1_003, &mut staking, &config, &mut a, &mut a_pending, &mut history, 150)
        .unwrap();
    assert_eq!(staking.stakes_sum, a.stake_amount + b.stake_amount);
    stake(1_004, &mut staking, &config, &mut a, &mut history, 300).unwrap();
    assert_eq!(staking.stakes_sum, a.stake_amount + b.stake_amount);
    start_unstake(1_005, &mut staking, &config, &mut b, &mut b_pending, &mut history, 350)
        .unwrap();
    assert_eq!(staking.stakes_sum, a.stake_amount + b.stake_amount);
    assert_eq!(staking.stakes_sum, 350);
    assert_eq!(a.available_amount + a.stake_amount + a.pending_amount, 500);
    assert_eq!(b.available_amount + b.stake_amount + b.pending_amount, 500);
}

#[test]
fn error_messages_are_distinct() {
    let all = [
        StakingError::ArithmeticOverflow,
        StakingError::InvalidConfiguration,
        StakingError::InsufficientBalance,
        StakingError::UnstakeAlreadyActive,
        StakingError::UnstakeNotActive,
        StakingError::UnstakeTimelockNotElapsed,
        StakingError::NothingToClaim,
    ];
    for (i, a) in all.iter().enumerate() {
        assert!(!a.message().is_empty());
        for b in all.iter().skip(i + 1) {
            assert_ne!(a.message(), b.message());
        }
    }
}
