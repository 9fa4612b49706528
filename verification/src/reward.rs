//! The reward owed on a withdrawn principal.

use crate::wide::{narrow, wide_div, wide_mul, widen, u256_limit};
use vstd::prelude::*;

verus! {

/// The reward on `principal` at `rate` percent: the product divided by one
/// hundred, rounded down.
pub open spec fn reward_spec(principal: nat, rate: nat) -> nat {
    principal * rate / 100
}

/// Computes the reward through a 256-bit product, so that no principal is too
/// large to multiply. Returns `None` exactly when the reward itself does not
/// fit the amount type, which can only happen at a rate above one hundred.
pub fn checked_reward(principal: u128, rate: u8) -> (r: Option<u128>)
    ensures
        r == (if reward_spec(principal as nat, rate as nat) <= u128::MAX {
            Some(reward_spec(principal as nat, rate as nat) as u128)
        } else {
            None
        }),
{
    let wide_principal = widen(principal);
    let wide_rate = widen(rate as u128);
    assert((principal as nat) * (rate as nat) < u256_limit()) by (nonlinear_arith)
        requires
            principal <= u128::MAX,
            rate <= u8::MAX,
    ;
    let product = wide_mul(wide_principal, wide_rate);
    let quotient = wide_div(product, widen(100));
    narrow(quotient)
}

/// The reward on `principal` at `rate` percent, for inputs whose reward fits
/// the amount type.
pub fn reward(principal: u128, rate: u8) -> (r: u128)
    requires
        reward_spec(principal as nat, rate as nat) <= u128::MAX,
    ensures
        r == reward_spec(principal as nat, rate as nat),
{
    match checked_reward(principal, rate) {
        Some(amount) => amount,
        None => vstd::pervasive::unreached(),
    }
}

/// A rate of zero earns nothing, whatever the principal.
pub proof fn lemma_reward_zero_rate(principal: nat)
    ensures
        reward_spec(principal, 0) == 0,
{
    assert(principal * 0 == 0) by (nonlinear_arith);
}

/// The reward never decreases when the principal or the rate grows.
pub proof fn lemma_reward_monotonic(
    principal: nat,
    rate: nat,
    larger_principal: nat,
    larger_rate: nat,
)
    requires
        principal <= larger_principal,
        rate <= larger_rate,
    ensures
        reward_spec(principal, rate) <= reward_spec(larger_principal, larger_rate),
{
    assert(principal * rate <= larger_principal * larger_rate) by (nonlinear_arith)
        requires
            principal <= larger_principal,
            rate <= larger_rate,
    ;
    vstd::arithmetic::div_mod::lemma_div_is_ordered(
        (principal * rate) as int,
        (larger_principal * larger_rate) as int,
        100,
    );
}

/// The reward is rounded down: a hundred times the reward never exceeds the
/// product of principal and rate, and falls short of it by less than a hundred.
pub proof fn lemma_reward_truncates(principal: nat, rate: nat)
    ensures
        100 * reward_spec(principal, rate) <= principal * rate,
        principal * rate < 100 * (reward_spec(principal, rate) + 1),
{
    vstd::arithmetic::div_mod::lemma_fundamental_div_mod((principal * rate) as int, 100);
}

/// At any rate up to one hundred percent the reward is no more than the
/// principal, so it fits the amount type.
pub proof fn lemma_reward_at_most_principal(principal: nat, rate: nat)
    requires
        rate <= 100,
    ensures
        reward_spec(principal, rate) <= principal,
{
    assert(principal * rate <= principal * 100) by (nonlinear_arith)
        requires
            rate <= 100,
    ;
    assert((principal * rate) / 100 <= (principal * 100) / 100) by {
        vstd::arithmetic::div_mod::lemma_div_is_ordered(
            (principal * rate) as int,
            (principal * 100) as int,
            100,
        );
    }
}

} // verus!
