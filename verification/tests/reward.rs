use custody_contracts::reward::{checked_reward, reward};

#[test]
fn reward_on_ten_million_at_fifteen_percent() {
    assert_eq!(reward(10_000_000, 15), 1_500_000);
    assert_eq!(checked_reward(10_000_000, 15), Some(1_500_000));
}

#[test]
fn reward_truncates() {
    assert_eq!(reward(99, 1), 0);
    assert_eq!(reward(100, 1), 1);
    assert_eq!(reward(199, 1), 1);
    assert_eq!(reward(7, 15), 1);
    assert_eq!(reward(333, 33), 109);
    assert_eq!(reward(1, 255), 2);
}

#[test]
fn reward_at_zero_rate_is_zero() {
    assert_eq!(reward(0, 0), 0);
    assert_eq!(reward(1, 0), 0);
    assert_eq!(reward(10_000_000, 0), 0);
    assert_eq!(reward(u128::MAX, 0), 0);
}

#[test]
fn reward_on_nothing_is_zero() {
    assert_eq!(reward(0, 10), 0);
    assert_eq!(reward(0, 255), 0);
}

#[test]
fn reward_does_not_decrease_with_either_argument() {
    let principals: [u128; 6] = [0, 1, 99, 100, 12_345, 10_000_000];
    let rates: [u8; 6] = [0, 1, 10, 15, 100, 255];
    for (i, &principal) in principals.iter().enumerate() {
        for &larger_principal in &principals[i..] {
            for (j, &rate) in rates.iter().enumerate() {
                for &larger_rate in &rates[j..] {
                    assert!(reward(principal, rate) <= reward(larger_principal, larger_rate));
                }
            }
        }
    }
}

#[test]
fn reward_survives_a_product_beyond_the_amount_type() {
    // The product of these two does not fit in 128 bits; the reward does.
    assert_eq!(reward(u128::MAX, 100), u128::MAX);
    assert_eq!(reward(u128::MAX, 50), u128::MAX / 2);
    assert_eq!(reward(u128::MAX, 1), 3_402_823_669_209_384_634_633_746_074_317_682_114);
    assert_eq!(
        reward(u128::MAX / 2, 15),
        25_521_177_519_070_384_759_753_095_557_382_615_859
    );
}

#[test]
fn checked_reward_reports_a_reward_that_does_not_fit() {
    assert_eq!(checked_reward(u128::MAX, 101), None);
    assert_eq!(checked_reward(u128::MAX, 255), None);
    // The largest principal whose reward at 200 percent still fits.
    let half = u128::MAX / 2;
    assert_eq!(checked_reward(half, 200), Some(u128::MAX - 1));
    assert_eq!(checked_reward(half + 1, 200), None);
}
