//! The staking ledger: who has staked how much, what an unstake pays out, and
//! the conditions under which value may leave the pool.
//!
//! The ledger never talks to the hosting environment. Each operation takes
//! what the environment knows (who is calling, how much is attached, how much
//! the pool holds) as arguments, and hands back the transfer to request and
//! the record to emit.

use crate::account::AccountId;
use crate::balances::{amount_at, lemma_sum_bounds_each, lemma_sum_insert, sum_values, BalanceTable};
use crate::reward::{checked_reward, reward_spec};
use vstd::prelude::*;

verus! {

/// Why an operation was turned down. A rejected operation changes nothing.
#[derive(Debug, Clone, Copy, PartialEq, Eq, Structural)]
pub enum StakingError {
    /// An unstake was attempted while another one holds the settlement lock.
    AlreadyLocked,
    /// An unstake asked for more than the caller has staked.
    InsufficientStake,
    /// The pool does not hold enough to pay the reward on top of all stakes.
    InsufficientPoolFunds,
    /// An owner withdrawal would reach into staked principal.
    InsufficientAvailableFunds,
    /// An owner-only operation was attempted by someone else.
    NotAuthorized,
}

/// A payout for the hosting environment to carry out.
#[derive(Debug, PartialEq, Eq)]
pub struct Transfer {
    pub to: AccountId,
    pub amount: u128,
}

/// Record of a stake: who added how much to their balance.
#[derive(Debug, PartialEq, Eq)]
pub struct StakeEvent {
    pub staker: AccountId,
    pub amount: u128,
}

/// Record of an unstake: who took how much principal out. The reward is not
/// part of the record; it shows in the transfer.
#[derive(Debug, PartialEq, Eq)]
pub struct UnstakeEvent {
    pub staker: AccountId,
    pub amount: u128,
}

/// What a successful unstake asks of the hosting environment: first the
/// payout, then the record of it.
#[derive(Debug, PartialEq, Eq)]
pub struct Settlement {
    pub transfer: Transfer,
    pub event: UnstakeEvent,
}

/// The ledger as a mathematical value.
#[verifier::ext_equal]
pub struct LedgerView {
    /// The account allowed to administer the pool.
    pub owner: Seq<char>,
    /// The staked amount of every account that ever staked or unstaked.
    pub balances: Map<Seq<char>, u128>,
    /// The aggregate the ledger keeps of all staked amounts.
    pub total_staked: nat,
    /// The reward paid on unstaked principal, in whole percent.
    pub reward_rate: nat,
    /// Whether an unstake currently holds the settlement lock.
    pub locked: bool,
}

impl LedgerView {
    /// What `account` has staked; zero for an account the ledger never saw.
    pub open spec fn balance_of(self, account: Seq<char>) -> nat {
        amount_at(self.balances, account)
    }

    /// The aggregate equals the sum of the individual balances.
    pub open spec fn consistent(self) -> bool {
        &&& self.balances.dom().finite()
        &&& self.total_staked == sum_values(self.balances)
    }

    /// Whether the pool, holding `custodial_balance`, covers every stake plus
    /// `additional_outflow`.
    pub open spec fn covers(self, custodial_balance: nat, additional_outflow: nat) -> bool {
        custodial_balance >= self.total_staked + additional_outflow
    }

    /// The ledger after `caller` stakes `amount`.
    pub open spec fn after_stake(self, caller: Seq<char>, amount: nat) -> LedgerView {
        LedgerView {
            balances: self.balances.insert(caller, (self.balance_of(caller) + amount) as u128),
            total_staked: self.total_staked + amount,
            ..self
        }
    }

    /// The reward that unstaking `amount` earns at the current rate.
    pub open spec fn reward_on(self, amount: nat) -> nat {
        reward_spec(amount, self.reward_rate)
    }

    /// What settling an unstake of `amount` by `caller` yields while the pool
    /// holds `custodial_balance`: the payout, or the first check that fails.
    pub open spec fn settle_result(
        self,
        caller: Seq<char>,
        amount: nat,
        custodial_balance: nat,
    ) -> Result<nat, StakingError> {
        if self.balance_of(caller) < amount {
            Err(StakingError::InsufficientStake)
        } else if !self.covers(custodial_balance, self.reward_on(amount)) {
            Err(StakingError::InsufficientPoolFunds)
        } else {
            Ok(amount + self.reward_on(amount))
        }
    }

    /// The ledger after that settlement: reduced by `amount` where the
    /// settlement succeeds, untouched where it fails.
    pub open spec fn after_settle(
        self,
        caller: Seq<char>,
        amount: nat,
        custodial_balance: nat,
    ) -> LedgerView {
        if self.settle_result(caller, amount, custodial_balance) is Ok {
            LedgerView {
                balances: self.balances.insert(caller, (self.balance_of(caller) - amount) as u128),
                total_staked: (self.total_staked - amount) as nat,
                ..self
            }
        } else {
            self
        }
    }

    /// What an unstake yields: rejected outright while the lock is held,
    /// settled otherwise.
    pub open spec fn unstake_result(
        self,
        caller: Seq<char>,
        amount: nat,
        custodial_balance: nat,
    ) -> Result<nat, StakingError> {
        if self.locked {
            Err(StakingError::AlreadyLocked)
        } else {
            self.settle_result(caller, amount, custodial_balance)
        }
    }

    /// The ledger after an unstake. The lock, free before, is free again.
    pub open spec fn after_unstake(
        self,
        caller: Seq<char>,
        amount: nat,
        custodial_balance: nat,
    ) -> LedgerView {
        if self.locked {
            self
        } else {
            self.after_settle(caller, amount, custodial_balance)
        }
    }

    /// What an owner withdrawal of `amount` requested by `caller` yields: the
    /// amount to pay out, or the check that fails.
    pub open spec fn withdraw_result(
        self,
        caller: Seq<char>,
        amount: nat,
        custodial_balance: nat,
    ) -> Result<nat, StakingError> {
        if caller != self.owner {
            Err(StakingError::NotAuthorized)
        } else if custodial_balance - self.total_staked < amount {
            Err(StakingError::InsufficientAvailableFunds)
        } else {
            Ok(amount)
        }
    }
}

/// Whether the outcome of a withdrawal is the one the model prescribes: the
/// same error, or a transfer of the prescribed amount to `recipient`.
pub open spec fn transfer_matches(
    outcome: Result<Transfer, StakingError>,
    prescribed: Result<nat, StakingError>,
    recipient: Seq<char>,
) -> bool {
    match outcome {
        Ok(transfer) => prescribed == Ok::<nat, StakingError>(transfer.amount as nat)
            && transfer.to@ == recipient,
        Err(e) => prescribed == Err::<nat, StakingError>(e),
    }
}

/// Whether the outcome of an unstake of `amount` by `caller` is the one the
/// model prescribes: the same error, or a transfer of the prescribed payout to
/// the caller together with a record of the caller and the principal.
pub open spec fn settlement_matches(
    outcome: Result<Settlement, StakingError>,
    prescribed: Result<nat, StakingError>,
    caller: Seq<char>,
    amount: nat,
) -> bool {
    match outcome {
        Ok(settlement) => {
            &&& prescribed == Ok::<nat, StakingError>(settlement.transfer.amount as nat)
            &&& settlement.transfer.to@ == caller
            &&& settlement.event.staker@ == caller
            &&& settlement.event.amount == amount
        },
        Err(e) => prescribed == Err::<nat, StakingError>(e),
    }
}

/// The staking pool's ledger.
pub struct StakingContract {
    owner_id: AccountId,
    staked_balances: BalanceTable,
    total_staked_balance: u128,
    reward_rate: u8,
    is_unstaking_locked: bool,
}

impl View for StakingContract {
    type V = LedgerView;

    closed spec fn view(&self) -> LedgerView {
        LedgerView {
            owner: self.owner_id@,
            balances: self.staked_balances@,
            total_staked: self.total_staked_balance as nat,
            reward_rate: self.reward_rate as nat,
            locked: self.is_unstaking_locked,
        }
    }
}

impl StakingContract {
    /// The stored representation is sound.
    pub closed spec fn repr_wf(&self) -> bool {
        self.staked_balances.wf()
    }

    /// A valid ledger: soundly stored, its aggregate equal to the sum of its
    /// balances, its rate and aggregate within their machine types.
    pub open spec fn wf(&self) -> bool {
        &&& self.repr_wf()
        &&& self@.consistent()
        &&& self@.total_staked <= u128::MAX
        &&& self@.reward_rate <= u8::MAX
    }

    /// A fresh ledger administered by `owner_id`: nothing staked, a reward of
    /// ten percent, the settlement lock free.
    pub fn new(owner_id: AccountId) -> (contract: StakingContract)
        ensures
            contract.wf(),
            contract@ == (LedgerView {
                owner: owner_id@,
                balances: Map::empty(),
                total_staked: 0,
                reward_rate: 10,
                locked: false,
            }),
    {
        let contract = StakingContract {
            owner_id,
            staked_balances: BalanceTable::new(),
            total_staked_balance: 0,
            reward_rate: 10,
            is_unstaking_locked: false,
        };
        proof {
            contract.staked_balances.lemma_finite();
        }
        contract
    }

    /// Succeeds exactly when `caller` is the owner.
    pub fn require_owner(&self, caller: &AccountId) -> (r: Result<(), StakingError>)
        ensures
            r == (if caller@ == self@.owner {
                Ok::<(), StakingError>(())
            } else {
                Err::<(), StakingError>(StakingError::NotAuthorized)
            }),
    {
        if *caller == self.owner_id {
            Ok(())
        } else {
            Err(StakingError::NotAuthorized)
        }
    }

    /// Sets the reward rate, for the owner only.
    pub fn set_reward_rate(&mut self, caller: &AccountId, new_rate: u8) -> (r: Result<
        (),
        StakingError,
    >)
        requires
            old(self).wf(),
        ensures
            final(self).wf(),
            caller@ == old(self)@.owner ==> r is Ok && final(self)@ == (LedgerView {
                reward_rate: new_rate as nat,
                ..old(self)@
            }),
            caller@ != old(self)@.owner ==> r == Err::<(), StakingError>(
                StakingError::NotAuthorized,
            ) && final(self)@ == old(self)@,
    {
        match self.require_owner(caller) {
            Ok(()) => {
                self.reward_rate = new_rate;
                Ok(())
            },
            Err(e) => Err(e),
        }
    }

    /// Adds `amount`, the value the caller attached, to the caller's stake and
    /// to the aggregate. The aggregate must stay within the amount type.
    pub fn stake(&mut self, caller: &AccountId, amount: u128) -> (event: StakeEvent)
        requires
            old(self).wf(),
            old(self)@.total_staked + amount <= u128::MAX,
        ensures
            final(self).wf(),
            final(self)@ == old(self)@.after_stake(caller@, amount as nat),
            event.staker@ == caller@,
            event.amount == amount,
    {
        let current_balance = self.staked_balances.get(caller);
        proof {
            if self@.balances.dom().contains(caller@) {
                lemma_sum_bounds_each(self@.balances, caller@);
            }
        }
        let new_balance = current_balance + amount;
        proof {
            lemma_sum_insert(self@.balances, caller@, new_balance);
        }
        self.staked_balances.insert(caller, new_balance);
        self.total_staked_balance = self.total_staked_balance + amount;
        proof {
            self.staked_balances.lemma_finite();
        }
        StakeEvent { staker: caller.clone(), amount }
    }

    /// Takes the settlement lock, or reports that it is already held.
    pub fn begin_unstake(&mut self) -> (r: Result<(), StakingError>)
        requires
            old(self).wf(),
        ensures
            final(self).wf(),
            !old(self)@.locked ==> r is Ok && final(self)@ == (LedgerView {
                locked: true,
                ..old(self)@
            }),
            old(self)@.locked ==> r == Err::<(), StakingError>(StakingError::AlreadyLocked)
                && final(self)@ == old(self)@,
    {
        if self.is_unstaking_locked {
            Err(StakingError::AlreadyLocked)
        } else {
            self.is_unstaking_locked = true;
            Ok(())
        }
    }

    /// Frees the settlement lock.
    pub fn end_unstake(&mut self)
        requires
            old(self).wf(),
        ensures
            final(self).wf(),
            final(self)@ == (LedgerView { locked: false, ..old(self)@ }),
    {
        self.is_unstaking_locked = false;
    }

    /// Succeeds exactly when the pool, holding `custodial_balance`, covers all
    /// stakes plus `additional_outflow`.
    pub fn check_solvency(&self, custodial_balance: u128, additional_outflow: u128) -> (r: Result<
        (),
        StakingError,
    >)
        requires
            self.wf(),
        ensures
            r == (if self@.covers(custodial_balance as nat, additional_outflow as nat) {
                Ok::<(), StakingError>(())
            } else {
                Err::<(), StakingError>(StakingError::InsufficientPoolFunds)
            }),
    {
        if custodial_balance >= self.total_staked_balance && custodial_balance
            - self.total_staked_balance >= additional_outflow {
            Ok(())
        } else {
            Err(StakingError::InsufficientPoolFunds)
        }
    }

    /// Settles an unstake of `amount` by `caller` against a pool that holds
    /// `custodial_balance`: checks the caller's stake, computes the reward,
    /// checks that the pool covers it, and only then reduces the ledger. The
    /// settlement lock is not consulted and not changed.
    pub fn settle_unstake(&mut self, caller: &AccountId, amount: u128, custodial_balance: u128) -> (r:
        Result<Settlement, StakingError>)
        requires
            old(self).wf(),
        ensures
            final(self).wf(),
            final(self)@ == old(self)@.after_settle(
                caller@,
                amount as nat,
                custodial_balance as nat,
            ),
            settlement_matches(
                r,
                old(self)@.settle_result(caller@, amount as nat, custodial_balance as nat),
                caller@,
                amount as nat,
            ),
    {
        let current_balance = self.staked_balances.get(caller);
        if current_balance < amount {
            return Err(StakingError::InsufficientStake);
        }
        let reward = match checked_reward(amount, self.reward_rate) {
            Some(reward) => reward,
            None => {
                return Err(StakingError::InsufficientPoolFunds);
            },
        };
        match self.check_solvency(custodial_balance, reward) {
            Ok(()) => {},
            Err(e) => {
                return Err(e);
            },
        }
        let new_balance = current_balance - amount;
        proof {
            if self@.balances.dom().contains(caller@) {
                lemma_sum_bounds_each(self@.balances, caller@);
            }
            lemma_sum_insert(self@.balances, caller@, new_balance);
        }
        self.staked_balances.insert(caller, new_balance);
        self.total_staked_balance = self.total_staked_balance - amount;
        proof {
            self.staked_balances.lemma_finite();
        }
        Ok(
            Settlement {
                transfer: Transfer { to: caller.clone(), amount: amount + reward },
                event: UnstakeEvent { staker: caller.clone(), amount },
            },
        )
    }

    /// Unstakes `amount` for `caller` from a pool that holds
    /// `custodial_balance`. Takes the settlement lock, settles, and frees the
    /// lock again whether or not the settlement succeeded; the transfer handed
    /// back is to be requested, and the record emitted, only after that.
    pub fn unstake(&mut self, caller: &AccountId, amount: u128, custodial_balance: u128) -> (r:
        Result<Settlement, StakingError>)
        requires
            old(self).wf(),
        ensures
            final(self).wf(),
            final(self)@ == old(self)@.after_unstake(
                caller@,
                amount as nat,
                custodial_balance as nat,
            ),
            settlement_matches(
                r,
                old(self)@.unstake_result(caller@, amount as nat, custodial_balance as nat),
                caller@,
                amount as nat,
            ),
    {
        match self.begin_unstake() {
            Ok(()) => {},
            Err(e) => {
                return Err(e);
            },
        }
        let outcome = self.settle_unstake(caller, amount, custodial_balance);
        self.end_unstake();
        outcome
    }

    /// Accepts reward funding from the owner. The attached value reaches the
    /// pool through the hosting environment; the ledger itself does not change.
    pub fn deposit_funds(&mut self, caller: &AccountId) -> (r: Result<(), StakingError>)
        requires
            old(self).wf(),
        ensures
            final(self).wf(),
            final(self)@ == old(self)@,
            r == (if caller@ == old(self)@.owner {
                Ok::<(), StakingError>(())
            } else {
                Err::<(), StakingError>(StakingError::NotAuthorized)
            }),
    {
        self.require_owner(caller)
    }

    /// Lets the owner take `amount` out of what the pool holds beyond the
    /// stakes. The ledger does not change.
    pub fn withdraw_funds(&mut self, caller: &AccountId, amount: u128, custodial_balance: u128) -> (r:
        Result<Transfer, StakingError>)
        requires
            old(self).wf(),
        ensures
            final(self).wf(),
            final(self)@ == old(self)@,
            transfer_matches(
                r,
                old(self)@.withdraw_result(caller@, amount as nat, custodial_balance as nat),
                old(self)@.owner,
            ),
    {
        match self.require_owner(caller) {
            Ok(()) => {},
            Err(e) => {
                return Err(e);
            },
        }
        if custodial_balance < self.total_staked_balance || custodial_balance
            - self.total_staked_balance < amount {
            return Err(StakingError::InsufficientAvailableFunds);
        }
        Ok(Transfer { to: self.owner_id.clone(), amount })
    }

    /// The account that administers the pool.
    pub fn owner_id(&self) -> (owner: &AccountId)
        ensures
            owner@ == self@.owner,
    {
        &self.owner_id
    }

    /// The reward rate in whole percent.
    pub fn reward_rate(&self) -> (rate: u8)
        ensures
            rate == self@.reward_rate,
    {
        self.reward_rate
    }

    /// Whether an unstake currently holds the settlement lock.
    pub fn is_unstaking_locked(&self) -> (locked: bool)
        ensures
            locked == self@.locked,
    {
        self.is_unstaking_locked
    }

    /// Every account the ledger holds a balance for, each one once. An
    /// account stays listed after its balance has gone back to zero.
    pub fn participants(&self) -> (list: Vec<AccountId>)
        requires
            self.wf(),
        ensures
            forall|i: int, j: int| 0 <= i < j < list@.len() ==> list@[i]@ != list@[j]@,
            forall|k: Seq<char>|
                self@.balances.dom().contains(k) <==> exists|i: int|
                    0 <= i < list@.len() && #[trigger] list@[i]@ == k,
    {
        self.staked_balances.accounts()
    }

    /// What `account_id` has staked; zero for an account that never staked.
    pub fn get_staked_balance(&self, account_id: AccountId) -> (balance: u128)
        requires
            self.wf(),
        ensures
            balance == self@.balance_of(account_id@),
    {
        self.staked_balances.get(&account_id)
    }

    /// The aggregate of all stakes.
    pub fn get_total_staked_balance(&self) -> (total: u128)
        ensures
            total == self@.total_staked,
    {
        self.total_staked_balance
    }
}

/// In a valid ledger the aggregate is the sum of all balances. Every
/// operation returns a valid ledger, so this holds between any two of them.
pub proof fn lemma_total_is_sum_of_balances(contract: StakingContract)
    requires
        contract.wf(),
    ensures
        contract@.total_staked == sum_values(contract@.balances),
{
}

/// Staking keeps the aggregate equal to the sum of the balances.
pub proof fn lemma_stake_keeps_total(ledger: LedgerView, caller: Seq<char>, amount: nat)
    requires
        ledger.consistent(),
        ledger.total_staked + amount <= u128::MAX,
    ensures
        ledger.after_stake(caller, amount).consistent(),
{
    if ledger.balances.dom().contains(caller) {
        lemma_sum_bounds_each(ledger.balances, caller);
    }
    lemma_sum_insert(ledger.balances, caller, (ledger.balance_of(caller) + amount) as u128);
}

/// Unstaking keeps the aggregate equal to the sum of the balances, whether it
/// succeeds or fails.
pub proof fn lemma_unstake_keeps_total(
    ledger: LedgerView,
    caller: Seq<char>,
    amount: nat,
    custodial_balance: nat,
)
    requires
        ledger.consistent(),
    ensures
        ledger.after_unstake(caller, amount, custodial_balance).consistent(),
{
    if !ledger.locked && ledger.settle_result(caller, amount, custodial_balance) is Ok {
        if ledger.balances.dom().contains(caller) {
            lemma_sum_bounds_each(ledger.balances, caller);
        }
        lemma_sum_insert(ledger.balances, caller, (ledger.balance_of(caller) - amount) as u128);
    }
}

/// An unstake for more than the caller has staked fails and leaves the ledger
/// as it was. While the lock is free the failure is `InsufficientStake`;
/// while it is held the lock is reported first.
pub proof fn lemma_unstake_beyond_stake_is_rejected(
    ledger: LedgerView,
    caller: Seq<char>,
    amount: nat,
    custodial_balance: nat,
)
    requires
        amount > ledger.balance_of(caller),
    ensures
        ledger.unstake_result(caller, amount, custodial_balance) is Err,
        ledger.after_unstake(caller, amount, custodial_balance) == ledger,
        !ledger.locked ==> ledger.unstake_result(caller, amount, custodial_balance) == Err::<
            nat,
            StakingError,
        >(StakingError::InsufficientStake),
{
}

/// An unstake that would settle is nevertheless rejected with `AlreadyLocked`,
/// and changes nothing, while the lock is held; the same unstake succeeds once
/// the lock has been freed.
pub proof fn lemma_lock_admits_one_unstake_at_a_time(
    ledger: LedgerView,
    caller: Seq<char>,
    amount: nat,
    custodial_balance: nat,
)
    requires
        ledger.settle_result(caller, amount, custodial_balance) is Ok,
    ensures
        ({
            let held = LedgerView { locked: true, ..ledger };
            &&& held.unstake_result(caller, amount, custodial_balance) == Err::<nat, StakingError>(
                StakingError::AlreadyLocked,
            )
            &&& held.after_unstake(caller, amount, custodial_balance) == held
        }),
        ({
            let freed = LedgerView { locked: false, ..ledger };
            &&& freed.unstake_result(caller, amount, custodial_balance) is Ok
            &&& !freed.after_unstake(caller, amount, custodial_balance).locked
        }),
{
}

/// An owner withdrawal of more than the pool holds beyond the stakes yields no
/// transfer: the owner is told `InsufficientAvailableFunds`, anyone else
/// `NotAuthorized`.
pub proof fn lemma_withdraw_beyond_available_is_rejected(
    ledger: LedgerView,
    caller: Seq<char>,
    amount: nat,
    custodial_balance: nat,
)
    requires
        amount > custodial_balance - ledger.total_staked,
    ensures
        ledger.withdraw_result(caller, amount, custodial_balance) is Err,
        caller == ledger.owner ==> ledger.withdraw_result(caller, amount, custodial_balance)
            == Err::<nat, StakingError>(StakingError::InsufficientAvailableFunds),
{
}

/// A successful unstake pays the principal plus the reward at the rate in
/// force at that moment, and the pool still covers every remaining stake
/// afterwards.
pub proof fn lemma_settlement_is_funded(
    ledger: LedgerView,
    caller: Seq<char>,
    amount: nat,
    custodial_balance: nat,
)
    requires
        ledger.consistent(),
        ledger.settle_result(caller, amount, custodial_balance) is Ok,
    ensures
        ledger.settle_result(caller, amount, custodial_balance) == Ok::<nat, StakingError>(
            amount + reward_spec(amount, ledger.reward_rate),
        ),
        amount + reward_spec(amount, ledger.reward_rate) <= custodial_balance,
        ledger.after_settle(caller, amount, custodial_balance).covers(
            (custodial_balance - (amount + reward_spec(amount, ledger.reward_rate))) as nat,
            0,
        ),
{
    if ledger.balances.dom().contains(caller) {
        lemma_sum_bounds_each(ledger.balances, caller);
    }
}

} // verus!
