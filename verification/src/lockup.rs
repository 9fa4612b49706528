//! The conditional lockup: one deposit, one verdict, one release.
//!
//! A user locks an amount. A verifier later reports whether the condition was
//! met. If it was, the user may take the amount back; if it was not, the
//! beneficiary may take it.

use crate::account::AccountId;
use vstd::prelude::*;

verus! {

/// Why a lockup operation was turned down. A rejected operation changes
/// nothing.
#[derive(Debug, Clone, Copy, PartialEq, Eq, Structural)]
pub enum LockupError {
    /// Funds are already locked.
    AlreadyLocked,
    /// Someone other than the verifier tried to report the condition.
    NotVerifier,
    /// The condition has already been reported.
    AlreadyReported,
    /// A withdrawal was attempted before the condition was reported.
    NotReported,
    /// The condition was met, but nobody ever locked funds.
    NoDepositor,
    /// The condition was met and someone other than the user tried to withdraw.
    NotUser,
    /// The condition was not met and someone other than the beneficiary tried
    /// to withdraw.
    NotBeneficiary,
}

/// Record of a deposit: who locked how much.
#[derive(Debug, PartialEq, Eq)]
pub struct LockFundsEvent {
    pub user: AccountId,
    pub amount: u128,
}

/// Record of the verifier's verdict.
#[derive(Debug, Clone, Copy, PartialEq, Eq, Structural)]
pub struct ReportConditionEvent {
    pub condition_met: bool,
}

/// Record of a release: who is to receive how much. It doubles as the
/// instruction for the hosting environment to make that transfer.
#[derive(Debug, PartialEq, Eq)]
pub struct WithdrawEvent {
    pub recipient: AccountId,
    pub amount: u128,
}

/// The state of one lockup.
pub struct ConditionalLockupContract {
    /// Who locked the funds, once somebody has.
    pub user_account_id: Option<AccountId>,
    /// Who receives the funds if the condition is not met.
    pub beneficiary_id: AccountId,
    /// Who may report the condition.
    pub verifier_account_id: AccountId,
    /// The amount locked; zero until somebody locks funds.
    pub locked_amount: u128,
    /// The verdict, once it has been reported.
    pub condition_was_met: Option<bool>,
}

/// The lockup as a mathematical value.
pub struct LockupView {
    pub user: Option<Seq<char>>,
    pub beneficiary: Seq<char>,
    pub verifier: Seq<char>,
    pub locked_amount: nat,
    pub condition: Option<bool>,
}

impl View for ConditionalLockupContract {
    type V = LockupView;

    open spec fn view(&self) -> LockupView {
        LockupView {
            user: match self.user_account_id {
                Some(user) => Some(user@),
                None => None,
            },
            beneficiary: self.beneficiary_id@,
            verifier: self.verifier_account_id@,
            locked_amount: self.locked_amount as nat,
            condition: self.condition_was_met,
        }
    }
}

impl LockupView {
    /// Who may withdraw and receive the funds once the verdict is in: the
    /// user if the condition was met, the beneficiary if it was not.
    pub open spec fn withdraw_result(self, caller: Seq<char>) -> Result<Seq<char>, LockupError> {
        match self.condition {
            None => Err(LockupError::NotReported),
            Some(true) => match self.user {
                None => Err(LockupError::NoDepositor),
                Some(user) => if caller == user {
                    Ok(user)
                } else {
                    Err(LockupError::NotUser)
                },
            },
            Some(false) => if caller == self.beneficiary {
                Ok(self.beneficiary)
            } else {
                Err(LockupError::NotBeneficiary)
            },
        }
    }
}

impl ConditionalLockupContract {
    /// A lockup with nothing locked and no verdict yet.
    pub fn new(beneficiary_id: AccountId, verifier_account_id: AccountId) -> (contract:
        ConditionalLockupContract)
        ensures
            contract@ == (LockupView {
                user: None,
                beneficiary: beneficiary_id@,
                verifier: verifier_account_id@,
                locked_amount: 0,
                condition: None,
            }),
    {
        ConditionalLockupContract {
            user_account_id: None,
            beneficiary_id,
            verifier_account_id,
            locked_amount: 0,
            condition_was_met: None,
        }
    }

    /// Locks `amount`, the value the caller attached, in the caller's name.
    /// Only the first deposit is accepted.
    pub fn lock_funds(&mut self, caller: &AccountId, amount: u128) -> (r: Result<
        LockFundsEvent,
        LockupError,
    >)
        ensures
            old(self)@.user is Some ==> r == Err::<LockFundsEvent, LockupError>(
                LockupError::AlreadyLocked,
            ) && final(self)@ == old(self)@,
            old(self)@.user is None ==> r is Ok && r->Ok_0.user@ == caller@ && r->Ok_0.amount
                == amount && final(self)@ == (LockupView {
                user: Some(caller@),
                locked_amount: amount as nat,
                ..old(self)@
            }),
    {
        if self.user_account_id.is_some() {
            return Err(LockupError::AlreadyLocked);
        }
        self.user_account_id = Some(caller.clone());
        self.locked_amount = amount;
        Ok(LockFundsEvent { user: caller.clone(), amount })
    }

    /// Records the verifier's verdict. Only the verifier may report, and only
    /// once.
    pub fn report_condition(&mut self, caller: &AccountId, condition_met: bool) -> (r: Result<
        ReportConditionEvent,
        LockupError,
    >)
        ensures
            r == (if caller@ != old(self)@.verifier {
                Err::<ReportConditionEvent, LockupError>(LockupError::NotVerifier)
            } else if old(self)@.condition is Some {
                Err::<ReportConditionEvent, LockupError>(LockupError::AlreadyReported)
            } else {
                Ok::<ReportConditionEvent, LockupError>(ReportConditionEvent { condition_met })
            }),
            r is Ok ==> final(self)@ == (LockupView {
                condition: Some(condition_met),
                ..old(self)@
            }),
            r is Err ==> final(self)@ == old(self)@,
    {
        if *caller != self.verifier_account_id {
            return Err(LockupError::NotVerifier);
        }
        if self.condition_was_met.is_some() {
            return Err(LockupError::AlreadyReported);
        }
        self.condition_was_met = Some(condition_met);
        Ok(ReportConditionEvent { condition_met })
    }

    /// Releases the locked amount to whoever the verdict entitles, provided
    /// that this is the caller. The lockup itself is left as it was.
    pub fn withdraw(&mut self, caller: &AccountId) -> (r: Result<WithdrawEvent, LockupError>)
        ensures
            final(self)@ == old(self)@,
            match r {
                Ok(event) => old(self)@.withdraw_result(caller@) == Ok::<
                    Seq<char>,
                    LockupError,
                >(event.recipient@) && event.amount == old(self)@.locked_amount,
                Err(e) => old(self)@.withdraw_result(caller@) == Err::<Seq<char>, LockupError>(e),
            },
    {
        let condition_met = match self.condition_was_met {
            Some(condition_met) => condition_met,
            None => {
                return Err(LockupError::NotReported);
            },
        };
        if condition_met {
            let user = match &self.user_account_id {
                Some(user) => user.clone(),
                None => {
                    return Err(LockupError::NoDepositor);
                },
            };
            if *caller != user {
                return Err(LockupError::NotUser);
            }
            Ok(WithdrawEvent { recipient: user, amount: self.locked_amount })
        } else {
            let beneficiary = self.beneficiary_id.clone();
            if *caller != beneficiary {
                return Err(LockupError::NotBeneficiary);
            }
            Ok(WithdrawEvent { recipient: beneficiary, amount: self.locked_amount })
        }
    }
}

} // verus!
