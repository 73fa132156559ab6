use vstd::prelude::*;

use crate::actor_id::ActorId;
use crate::io::StakingError;
use crate::staking::{
    lemma_credit, lemma_debit, lemma_entry_le_sum, lemma_find, StakingView,
};

verus! {

/// A confirmed stake keeps the total equal to the sum of the recorded stakes,
/// provided the total stays within `u128`: past that ceiling the total
/// saturates while the sum would not.
pub proof fn lemma_stake_keeps_balanced(v: StakingView, who: ActorId, amount: u128)
    requires
        v.wf(),
        v.balanced(),
        v.total_staked + amount <= u128::MAX,
    ensures
        v.after_stake(who, amount).wf(),
        v.after_stake(who, amount).balanced(),
{
    lemma_credit(v.stakers, who, amount);
    lemma_find(v.stakers, who);
    if v.has_staker(who) {
        lemma_entry_le_sum(v.stakers, crate::staking::find(v.stakers, who));
    }
}

/// A confirmed withdrawal that passed its checks keeps the total equal to the
/// sum of the recorded stakes.
pub proof fn lemma_withdraw_keeps_balanced(v: StakingView, who: ActorId, amount: u128)
    requires
        v.wf(),
        v.balanced(),
        v.withdraw_check(who, amount) is None,
    ensures
        v.after_withdraw(who, amount).wf(),
        v.after_withdraw(who, amount).balanced(),
{
    lemma_debit(v.stakers, who, amount);
    lemma_find(v.stakers, who);
    lemma_entry_le_sum(v.stakers, crate::staking::find(v.stakers, who));
}

/// Staking accumulates: two confirmed stakes by one account add up, they do
/// not replace one another, as long as the stake stays within `u128`.
pub proof fn lemma_stakes_accumulate(v: StakingView, who: ActorId, first: u128, second: u128)
    requires
        v.wf(),
        v.stake_of(who) + first + second <= u128::MAX,
    ensures
        v.after_stake(who, first).after_stake(who, second).stake_of(who) == v.stake_of(who)
            + first + second,
{
    lemma_credit(v.stakers, who, first);
    lemma_credit(v.after_stake(who, first).stakers, who, second);
}

/// A withdrawal passes its checks exactly when the amount is positive and at
/// most the account's stake; a confirmed one leaves exactly the old stake
/// minus the amount, and no other account's stake changes. A withdrawal of
/// more than the stake fails.
pub proof fn lemma_withdraw_exact(v: StakingView, who: ActorId, amount: u128)
    requires
        v.wf(),
    ensures
        (v.withdraw_check(who, amount) is None) == (0 < amount && v.has_staker(who) && amount
            <= v.stake_of(who)),
        v.stake_of(who) < amount ==> v.withdraw_check(who, amount) is Some,
        v.withdraw_check(who, amount) is None ==> v.after_withdraw(who, amount).stake_of(who)
            == v.stake_of(who) - amount,
        v.withdraw_check(who, amount) is None ==> forall|w: ActorId|
            w != who ==> v.after_withdraw(who, amount).stake_of(w) == v.stake_of(w),
{
    if v.has_staker(who) {
        lemma_debit(v.stakers, who, amount);
    }
}

/// A withdrawal of zero is refused as an invalid amount, whoever asks.
pub proof fn lemma_zero_amount_refused(v: StakingView, who: ActorId)
    ensures
        v.withdraw_check(who, 0) == Some(StakingError::InvalidAmount),
{
}

} // verus!
