use custody_contracts::account::AccountId;
use custody_contracts::staking::{
    Settlement, StakeEvent, StakingContract, StakingError, Transfer, UnstakeEvent,
};
use near_sdk::NearToken;

fn near(whole: u128) -> u128 {
    NearToken::from_near(whole).as_yoctonear()
}

fn accounts(index: usize) -> AccountId {
    AccountId::new(near_sdk::test_utils::accounts(index).as_str())
}

/// A successful unstake of `principal` by `staker` that pays out `payout`.
fn settled(staker: AccountId, principal: u128, payout: u128) -> Result<Settlement, StakingError> {
    Ok(Settlement {
        transfer: Transfer { to: staker.clone(), amount: payout },
        event: UnstakeEvent { staker, amount: principal },
    })
}

#[test]
fn test_new() {
    let contract = StakingContract::new(accounts(0));
    assert_eq!(*contract.owner_id(), accounts(0));
    assert_eq!(contract.reward_rate(), 10);
}

#[test]
fn test_stake() {
    let mut contract = StakingContract::new(accounts(0));
    let event = contract.stake(&accounts(1), near(10));
    assert_eq!(event, StakeEvent { staker: accounts(1), amount: near(10) });
    assert_eq!(contract.get_staked_balance(accounts(1)), near(10));
    assert_eq!(contract.get_total_staked_balance(), near(10));
}

#[test]
fn test_unstake() {
    let mut contract = StakingContract::new(accounts(0));

    assert_eq!(contract.deposit_funds(&accounts(0)), Ok(()));

    contract.stake(&accounts(1), near(10));

    let paid = contract.unstake(&accounts(1), near(10), near(21));
    assert_eq!(paid, settled(accounts(1), near(10), near(11)));
    assert_eq!(contract.get_staked_balance(accounts(1)), 0);
    assert_eq!(contract.get_total_staked_balance(), 0);
}

#[test]
fn test_unstake_not_enough_balance() {
    let mut contract = StakingContract::new(accounts(0));
    let refused = contract.unstake(&accounts(1), near(10), 0);
    assert_eq!(refused, Err(StakingError::InsufficientStake));
}

#[test]
fn test_deposit_funds_not_owner() {
    let mut contract = StakingContract::new(accounts(0));
    assert_eq!(contract.deposit_funds(&accounts(1)), Err(StakingError::NotAuthorized));
}

#[test]
fn test_withdraw_funds_not_owner() {
    let mut contract = StakingContract::new(accounts(0));
    let refused = contract.withdraw_funds(&accounts(1), 1, near(10));
    assert_eq!(refused, Err(StakingError::NotAuthorized));
}

#[test]
fn test_set_reward_rate() {
    let mut contract = StakingContract::new(accounts(0));
    assert_eq!(contract.set_reward_rate(&accounts(0), 20), Ok(()));
    assert_eq!(contract.reward_rate(), 20);
}

#[test]
fn test_set_reward_rate_not_owner() {
    let mut contract = StakingContract::new(accounts(0));
    assert_eq!(contract.set_reward_rate(&accounts(1), 20), Err(StakingError::NotAuthorized));
    assert_eq!(contract.reward_rate(), 10);
}

#[test]
fn test_unstake_with_reward_precision() {
    let mut contract = StakingContract::new(accounts(0));
    assert_eq!(contract.deposit_funds(&accounts(0)), Ok(()));

    contract.stake(&accounts(1), near(10));

    assert_eq!(contract.set_reward_rate(&accounts(0), 15), Ok(()));

    let unstake_amount = near(10);
    let paid = contract.unstake(&accounts(1), unstake_amount, near(21));
    assert_eq!(paid, settled(accounts(1), near(10), near(11) + near(1) / 2));

    let final_staked_balance = contract.get_staked_balance(accounts(1));
    assert_eq!(final_staked_balance, 0);
}

#[test]
fn test_unstake_locked() {
    let mut contract = StakingContract::new(accounts(0));
    assert_eq!(contract.deposit_funds(&accounts(0)), Ok(()));

    contract.stake(&accounts(1), near(10));

    // Another settlement holds the lock.
    assert_eq!(contract.begin_unstake(), Ok(()));

    let refused = contract.unstake(&accounts(1), near(10), near(21));
    assert_eq!(refused, Err(StakingError::AlreadyLocked));
    assert_eq!(contract.get_staked_balance(accounts(1)), near(10));
    assert_eq!(contract.get_total_staked_balance(), near(10));
    assert!(contract.is_unstaking_locked());
}

#[test]
fn unstake_succeeds_once_lock_is_released() {
    let mut contract = StakingContract::new(accounts(0));
    contract.stake(&accounts(1), 200);
    contract.stake(&accounts(2), 200);

    assert_eq!(contract.begin_unstake(), Ok(()));
    assert_eq!(contract.begin_unstake(), Err(StakingError::AlreadyLocked));
    let first = contract.settle_unstake(&accounts(1), 100, 1_000);
    assert_eq!(first, settled(accounts(1), 100, 110));

    let second = contract.unstake(&accounts(2), 100, 890);
    assert_eq!(second, Err(StakingError::AlreadyLocked));
    assert_eq!(contract.get_staked_balance(accounts(2)), 200);

    contract.end_unstake();
    assert!(!contract.is_unstaking_locked());
    let second = contract.unstake(&accounts(2), 100, 890);
    assert_eq!(second, settled(accounts(2), 100, 110));
    assert!(!contract.is_unstaking_locked());
    assert_eq!(contract.get_total_staked_balance(), 200);
}

#[test]
fn lock_is_free_after_a_rejected_unstake() {
    let mut contract = StakingContract::new(accounts(0));
    contract.stake(&accounts(1), 50);
    assert_eq!(contract.unstake(&accounts(1), 51, 1_000), Err(StakingError::InsufficientStake));
    assert!(!contract.is_unstaking_locked());
    assert_eq!(contract.unstake(&accounts(1), 50, 54), Err(StakingError::InsufficientPoolFunds));
    assert!(!contract.is_unstaking_locked());
    assert_eq!(contract.unstake(&accounts(1), 50, 55), settled(accounts(1), 50, 55));
}

#[test]
fn total_equals_sum_of_balances_after_each_step() {
    let mut contract = StakingContract::new(accounts(0));
    let sum = |contract: &StakingContract| -> u128 {
        (0..6).map(|i| contract.get_staked_balance(accounts(i))).sum()
    };
    assert_eq!(contract.get_total_staked_balance(), sum(&contract));

    contract.stake(&accounts(1), 700);
    assert_eq!(contract.get_total_staked_balance(), 700);
    assert_eq!(contract.get_total_staked_balance(), sum(&contract));

    contract.stake(&accounts(2), 300);
    contract.stake(&accounts(1), 5);
    assert_eq!(contract.get_staked_balance(accounts(1)), 705);
    assert_eq!(contract.get_total_staked_balance(), 1_005);
    assert_eq!(contract.get_total_staked_balance(), sum(&contract));

    assert!(contract.unstake(&accounts(2), 120, 10_000).is_ok());
    assert_eq!(contract.get_staked_balance(accounts(2)), 180);
    assert_eq!(contract.get_total_staked_balance(), 885);
    assert_eq!(contract.get_total_staked_balance(), sum(&contract));

    assert!(contract.unstake(&accounts(3), 1, 10_000).is_err());
    assert_eq!(contract.get_total_staked_balance(), 885);
    assert_eq!(contract.get_total_staked_balance(), sum(&contract));

    assert!(contract.unstake(&accounts(1), 705, 10_000).is_ok());
    assert_eq!(contract.get_staked_balance(accounts(1)), 0);
    assert_eq!(contract.get_total_staked_balance(), 180);
    assert_eq!(contract.get_total_staked_balance(), sum(&contract));
}

#[test]
fn unstake_above_balance_changes_nothing() {
    let mut contract = StakingContract::new(accounts(0));
    contract.stake(&accounts(1), 40);
    contract.stake(&accounts(2), 60);
    let refused = contract.unstake(&accounts(1), 41, u128::MAX);
    assert_eq!(refused, Err(StakingError::InsufficientStake));
    assert_eq!(contract.get_staked_balance(accounts(1)), 40);
    assert_eq!(contract.get_staked_balance(accounts(2)), 60);
    assert_eq!(contract.get_total_staked_balance(), 100);
}

#[test]
fn unstake_without_stake_is_rejected() {
    let mut contract = StakingContract::new(accounts(0));
    contract.stake(&accounts(1), 10);
    let refused = contract.unstake(&accounts(2), 1, 1_000);
    assert_eq!(refused, Err(StakingError::InsufficientStake));
    assert_eq!(contract.get_staked_balance(accounts(1)), 10);
    assert_eq!(contract.get_staked_balance(accounts(2)), 0);
    assert_eq!(contract.get_total_staked_balance(), 10);
    assert_eq!(contract.reward_rate(), 10);
    assert!(!contract.is_unstaking_locked());
}

#[test]
fn deposit_stake_raise_rate_unstake() {
    let owner = accounts(0);
    let staker = accounts(1);
    let mut contract = StakingContract::new(owner.clone());

    assert_eq!(contract.deposit_funds(&owner), Ok(()));
    contract.stake(&staker, near(10));
    assert_eq!(contract.get_staked_balance(staker.clone()), near(10));
    assert_eq!(contract.get_total_staked_balance(), near(10));

    assert_eq!(contract.set_reward_rate(&owner, 15), Ok(()));

    let paid = contract.unstake(&staker, near(10), near(20));
    assert_eq!(paid, settled(staker.clone(), near(10), 11_500_000_000_000_000_000_000_000));
    assert_eq!(contract.get_staked_balance(staker), 0);
    assert_eq!(contract.get_total_staked_balance(), 0);
}

#[test]
fn unstake_needs_the_reward_to_be_funded() {
    let mut contract = StakingContract::new(accounts(0));
    contract.stake(&accounts(1), 1_000);
    contract.stake(&accounts(2), 1_000);
    // Unstaking 1_000 at ten percent needs 2_000 staked plus 100 reward.
    assert_eq!(
        contract.unstake(&accounts(1), 1_000, 2_099),
        Err(StakingError::InsufficientPoolFunds)
    );
    assert_eq!(contract.get_staked_balance(accounts(1)), 1_000);
    assert_eq!(contract.get_total_staked_balance(), 2_000);
    assert_eq!(contract.unstake(&accounts(1), 1_000, 2_100), settled(accounts(1), 1_000, 1_100));
}

#[test]
fn unstake_with_an_unpayable_reward_is_rejected() {
    let mut contract = StakingContract::new(accounts(0));
    assert_eq!(contract.set_reward_rate(&accounts(0), 255), Ok(()));
    contract.stake(&accounts(1), u128::MAX);
    // The reward alone exceeds anything the pool could hold.
    assert_eq!(
        contract.unstake(&accounts(1), u128::MAX, u128::MAX),
        Err(StakingError::InsufficientPoolFunds)
    );
    assert_eq!(contract.get_staked_balance(accounts(1)), u128::MAX);
    assert_eq!(contract.set_reward_rate(&accounts(0), 0), Ok(()));
    assert_eq!(
        contract.unstake(&accounts(1), u128::MAX, u128::MAX),
        settled(accounts(1), u128::MAX, u128::MAX)
    );
    assert_eq!(contract.get_total_staked_balance(), 0);
}

#[test]
fn rate_at_unstake_time_applies() {
    let mut contract = StakingContract::new(accounts(0));
    contract.stake(&accounts(1), 1_000);
    assert_eq!(contract.unstake(&accounts(1), 400, 5_000), settled(accounts(1), 400, 440));
    assert_eq!(contract.set_reward_rate(&accounts(0), 50), Ok(()));
    assert_eq!(contract.unstake(&accounts(1), 400, 5_000), settled(accounts(1), 400, 600));
    assert_eq!(contract.get_staked_balance(accounts(1)), 200);
}

#[test]
fn zero_stake_and_zero_unstake_are_accepted() {
    let mut contract = StakingContract::new(accounts(0));
    assert_eq!(contract.stake(&accounts(1), 0), StakeEvent { staker: accounts(1), amount: 0 });
    assert_eq!(contract.get_staked_balance(accounts(1)), 0);
    assert_eq!(contract.get_total_staked_balance(), 0);
    assert_eq!(contract.unstake(&accounts(2), 0, 0), settled(accounts(2), 0, 0));
    assert_eq!(contract.get_total_staked_balance(), 0);
}

#[test]
fn owner_withdrawal_is_limited_to_unstaked_funds() {
    let owner = accounts(0);
    let mut contract = StakingContract::new(owner.clone());
    contract.stake(&accounts(1), 70);

    assert_eq!(
        contract.withdraw_funds(&owner, 31, 100),
        Err(StakingError::InsufficientAvailableFunds)
    );
    assert_eq!(
        contract.withdraw_funds(&owner, 30, 100),
        Ok(Transfer { to: owner.clone(), amount: 30 })
    );
    assert_eq!(contract.withdraw_funds(&owner, 0, 70), Ok(Transfer { to: owner.clone(), amount: 0 }));
    // The pool holds less than is staked: nothing at all is available.
    assert_eq!(
        contract.withdraw_funds(&owner, 0, 69),
        Err(StakingError::InsufficientAvailableFunds)
    );
    assert_eq!(contract.get_staked_balance(accounts(1)), 70);
    assert_eq!(contract.get_total_staked_balance(), 70);
}

#[test]
fn require_owner_tells_owner_from_others() {
    let contract = StakingContract::new(accounts(0));
    assert_eq!(contract.require_owner(&accounts(0)), Ok(()));
    assert_eq!(contract.require_owner(&accounts(1)), Err(StakingError::NotAuthorized));
}

#[test]
fn check_solvency_compares_against_stakes_plus_outflow() {
    let mut contract = StakingContract::new(accounts(0));
    contract.stake(&accounts(1), 500);
    assert_eq!(contract.check_solvency(500, 0), Ok(()));
    assert_eq!(contract.check_solvency(499, 0), Err(StakingError::InsufficientPoolFunds));
    assert_eq!(contract.check_solvency(550, 50), Ok(()));
    assert_eq!(contract.check_solvency(549, 50), Err(StakingError::InsufficientPoolFunds));
    assert_eq!(contract.check_solvency(u128::MAX, u128::MAX), Err(StakingError::InsufficientPoolFunds));
    assert_eq!(contract.check_solvency(u128::MAX, u128::MAX - 500), Ok(()));
}

#[test]
fn participants_are_listed_once_each() {
    let mut contract = StakingContract::new(accounts(0));
    assert!(contract.participants().is_empty());
    contract.stake(&accounts(2), 5);
    contract.stake(&accounts(1), 7);
    contract.stake(&accounts(2), 1);
    assert!(contract.unstake(&accounts(2), 6, 100).is_ok());
    let mut names: Vec<String> =
        contract.participants().iter().map(|account| account.as_str().to_string()).collect();
    names.sort();
    assert_eq!(names, vec!["bob".to_string(), "charlie".to_string()]);
    assert_eq!(contract.get_staked_balance(accounts(2)), 0);
}
