use vstd::prelude::*;

use crate::actor_id::ActorId;
use crate::io::{
    Staker, StakingError, StakingEvent, StakingInitialConfiguration, TransferOutcome,
    TransferRequest,
};

verus! {

/// `a + b`, clamped at `u128::MAX`.
pub open spec fn sat_add(a: u128, b: u128) -> u128 {
    if a + b > u128::MAX {
        u128::MAX
    } else {
        (a + b) as u128
    }
}

/// `a - b`, clamped at zero.
pub open spec fn sat_sub(a: u128, b: u128) -> u128 {
    if a < b {
        0
    } else {
        (a - b) as u128
    }
}

/// No account occurs twice among the entries.
pub open spec fn keys_unique(s: Seq<(ActorId, Staker)>) -> bool {
    forall|i: int, j: int|
        0 <= i < s.len() && 0 <= j < s.len() && i != j ==> #[trigger] s[i].0 != #[trigger] s[j].0
}

/// The index of the last entry of `who`, or -1 where there is none.
pub open spec fn find(s: Seq<(ActorId, Staker)>, who: ActorId) -> int
    decreases s.len(),
{
    if s.len() == 0 {
        -1
    } else if s.last().0 == who {
        s.len() - 1
    } else {
        find(s.drop_last(), who)
    }
}

/// The stake recorded for `who`: zero where there is no entry.
pub open spec fn stake_in(s: Seq<(ActorId, Staker)>, who: ActorId) -> u128 {
    if find(s, who) >= 0 {
        s[find(s, who)].1.balance
    } else {
        0
    }
}

/// The sum of all recorded stakes.
pub open spec fn sum_staked(s: Seq<(ActorId, Staker)>) -> int
    decreases s.len(),
{
    if s.len() == 0 {
        0
    } else {
        sum_staked(s.drop_last()) + s.last().1.balance
    }
}

/// The entries after `amount` is added to the stake of `who`, with a new
/// entry where `who` has none.
pub open spec fn credit(s: Seq<(ActorId, Staker)>, who: ActorId, amount: u128) -> Seq<
    (ActorId, Staker),
> {
    let i = find(s, who);
    if i >= 0 {
        s.update(i, (who, Staker { balance: sat_add(s[i].1.balance, amount) }))
    } else {
        s.push((who, Staker { balance: amount }))
    }
}

/// The entries after `amount` is taken from the stake of `who`.
pub open spec fn debit(s: Seq<(ActorId, Staker)>, who: ActorId, amount: u128) -> Seq<
    (ActorId, Staker),
> {
    let i = find(s, who);
    if i >= 0 {
        s.update(i, (who, Staker { balance: sat_sub(s[i].1.balance, amount) }))
    } else {
        s
    }
}

/// `find` gives the last entry of `who`, or -1 exactly where there is none.
pub proof fn lemma_find(s: Seq<(ActorId, Staker)>, who: ActorId)
    ensures
        -1 <= find(s, who) < s.len(),
        find(s, who) >= 0 ==> s[find(s, who)].0 == who,
        forall|j: int| find(s, who) < j < s.len() ==> s[j].0 != who,
    decreases s.len(),
{
    if s.len() > 0 {
        lemma_find(s.drop_last(), who);
        assert forall|j: int| find(s, who) < j < s.len() implies s[j].0 != who by {
            if j < s.len() - 1 {
                assert(s[j] == s.drop_last()[j]);
            }
        }
    }
}

/// With unique keys, every entry of `who` is the one that `find` gives.
pub proof fn lemma_find_unique(s: Seq<(ActorId, Staker)>, who: ActorId, i: int)
    requires
        keys_unique(s),
        0 <= i < s.len(),
        s[i].0 == who,
    ensures
        find(s, who) == i,
{
    lemma_find(s, who);
    if find(s, who) != i {
        assert(s[find(s, who)].0 != s[i].0);
    }
}

/// Replacing an entry by one of the same account moves no entry.
pub proof fn lemma_find_update(
    s: Seq<(ActorId, Staker)>,
    i: int,
    e: (ActorId, Staker),
    who: ActorId,
)
    requires
        0 <= i < s.len(),
        e.0 == s[i].0,
    ensures
        find(s.update(i, e), who) == find(s, who),
    decreases s.len(),
{
    if i < s.len() - 1 {
        assert(s.update(i, e).drop_last() =~= s.drop_last().update(i, e));
        lemma_find_update(s.drop_last(), i, e, who);
    } else {
        assert(s.update(i, e).drop_last() =~= s.drop_last());
    }
}

/// Replacing an entry changes the sum by the difference of the two stakes.
pub proof fn lemma_sum_update(s: Seq<(ActorId, Staker)>, i: int, e: (ActorId, Staker))
    requires
        0 <= i < s.len(),
    ensures
        sum_staked(s.update(i, e)) == sum_staked(s) - s[i].1.balance + e.1.balance,
    decreases s.len(),
{
    if i == s.len() - 1 {
        assert(s.update(i, e).drop_last() =~= s.drop_last());
    } else {
        assert(s.update(i, e).drop_last() =~= s.drop_last().update(i, e));
        lemma_sum_update(s.drop_last(), i, e);
    }
}

/// Appending an entry adds its stake to the sum, and it becomes the last
/// entry of its account.
pub proof fn lemma_push(s: Seq<(ActorId, Staker)>, e: (ActorId, Staker), who: ActorId)
    ensures
        sum_staked(s.push(e)) == sum_staked(s) + e.1.balance,
        find(s.push(e), who) == if e.0 == who {
            s.len() as int
        } else {
            find(s, who)
        },
{
    assert(s.push(e).drop_last() =~= s);
}

/// No single stake exceeds the sum of all of them.
pub proof fn lemma_entry_le_sum(s: Seq<(ActorId, Staker)>, i: int)
    requires
        0 <= i < s.len(),
    ensures
        s[i].1.balance <= sum_staked(s),
    decreases s.len(),
{
    lemma_sum_nonneg(s.drop_last());
    if i < s.len() - 1 {
        lemma_entry_le_sum(s.drop_last(), i);
    }
}

/// The sum of the stakes is never negative.
pub proof fn lemma_sum_nonneg(s: Seq<(ActorId, Staker)>)
    ensures
        sum_staked(s) >= 0,
    decreases s.len(),
{
    if s.len() > 0 {
        lemma_sum_nonneg(s.drop_last());
    }
}

/// What a credit does to the entries: keys stay unique, the stake of `who`
/// grows, saturating, by `amount`, every other stake stays, and the sum moves
/// by the change of the stake of `who`.
pub proof fn lemma_credit(s: Seq<(ActorId, Staker)>, who: ActorId, amount: u128)
    requires
        keys_unique(s),
    ensures
        keys_unique(credit(s, who, amount)),
        stake_in(credit(s, who, amount), who) == sat_add(stake_in(s, who), amount),
        forall|w: ActorId| w != who ==> stake_in(credit(s, who, amount), w) == stake_in(s, w),
        find(credit(s, who, amount), who) >= 0,
        sum_staked(credit(s, who, amount)) == sum_staked(s) - stake_in(s, who) + sat_add(
            stake_in(s, who),
            amount,
        ),
{
    lemma_find(s, who);
    let c = credit(s, who, amount);
    let i = find(s, who);
    if i >= 0 {
        let e = (who, Staker { balance: sat_add(s[i].1.balance, amount) });
        assert forall|a: int, b: int| 0 <= a < c.len() && 0 <= b < c.len() && a != b implies #[trigger] c[a].0
            != #[trigger] c[b].0 by {
            assert(c[a].0 == s[a].0);
            assert(c[b].0 == s[b].0);
        }
        assert forall|w: ActorId| true implies find(c, w) == find(s, w) by {
            lemma_find_update(s, i, e, w);
        }
        assert forall|w: ActorId| w != who implies stake_in(c, w) == stake_in(s, w) by {
            lemma_find(s, w);
            if find(s, w) >= 0 {
                assert(c[find(s, w)] == s[find(s, w)]);
            }
        }
        lemma_sum_update(s, i, e);
    } else {
        let e = (who, Staker { balance: amount });
        assert forall|a: int, b: int| 0 <= a < c.len() && 0 <= b < c.len() && a != b implies #[trigger] c[a].0
            != #[trigger] c[b].0 by {
            if a < s.len() {
                assert(c[a] == s[a]);
            }
            if b < s.len() {
                assert(c[b] == s[b]);
            }
        }
        assert forall|w: ActorId| true implies find(c, w) == if w == who {
            s.len() as int
        } else {
            find(s, w)
        } by {
            lemma_push(s, e, w);
        }
        lemma_push(s, e, who);
        assert forall|w: ActorId| w != who implies stake_in(c, w) == stake_in(s, w) by {
            lemma_find(s, w);
            if find(s, w) >= 0 {
                assert(c[find(s, w)] == s[find(s, w)]);
            }
        }
    }
}

/// What a debit of an account with an entry does to the entries: keys stay
/// unique, the stake of `who` shrinks, saturating at zero, by `amount`, every
/// other stake stays, and the sum moves by the change of the stake of `who`.
pub proof fn lemma_debit(s: Seq<(ActorId, Staker)>, who: ActorId, amount: u128)
    requires
        keys_unique(s),
        find(s, who) >= 0,
    ensures
        keys_unique(debit(s, who, amount)),
        stake_in(debit(s, who, amount), who) == sat_sub(stake_in(s, who), amount),
        forall|w: ActorId| w != who ==> stake_in(debit(s, who, amount), w) == stake_in(s, w),
        find(debit(s, who, amount), who) >= 0,
        sum_staked(debit(s, who, amount)) == sum_staked(s) - stake_in(s, who) + sat_sub(
            stake_in(s, who),
            amount,
        ),
{
    lemma_find(s, who);
    let d = debit(s, who, amount);
    let i = find(s, who);
    let e = (who, Staker { balance: sat_sub(s[i].1.balance, amount) });
    assert forall|a: int, b: int| 0 <= a < d.len() && 0 <= b < d.len() && a != b implies #[trigger] d[a].0
        != #[trigger] d[b].0 by {
        assert(d[a].0 == s[a].0);
        assert(d[b].0 == s[b].0);
    }
    assert forall|w: ActorId| true implies find(d, w) == find(s, w) by {
        lemma_find_update(s, i, e, w);
    }
    assert forall|w: ActorId| w != who implies stake_in(d, w) == stake_in(s, w) by {
        lemma_find(s, w);
        if find(s, w) >= 0 {
            assert(d[find(s, w)] == s[find(s, w)]);
        }
    }
    lemma_sum_update(s, i, e);
}

/// The ledger's state as mathematical values.
pub struct StakingView {
    pub owner: ActorId,
    pub token_address: ActorId,
    pub stakers: Seq<(ActorId, Staker)>,
    pub total_staked: u128,
}

impl StakingView {
    /// Each depositor has at most one entry.
    pub open spec fn wf(self) -> bool {
        keys_unique(self.stakers)
    }

    /// The total equals the sum of the recorded stakes.
    pub open spec fn balanced(self) -> bool {
        self.total_staked as int == sum_staked(self.stakers)
    }

    pub open spec fn has_staker(self, who: ActorId) -> bool {
        find(self.stakers, who) >= 0
    }

    pub open spec fn stake_of(self, who: ActorId) -> u128 {
        stake_in(self.stakers, who)
    }

    /// The state after a confirmed stake of `amount` by `who`.
    pub open spec fn after_stake(self, who: ActorId, amount: u128) -> StakingView {
        StakingView {
            stakers: credit(self.stakers, who, amount),
            total_staked: sat_add(self.total_staked, amount),
            ..self
        }
    }

    /// The state after a confirmed withdrawal of `amount` by `who`.
    pub open spec fn after_withdraw(self, who: ActorId, amount: u128) -> StakingView {
        StakingView {
            stakers: debit(self.stakers, who, amount),
            total_staked: sat_sub(self.total_staked, amount),
            ..self
        }
    }

    /// The error that a withdrawal of `amount` by `who` fails with before any
    /// transfer, if any.
    pub open spec fn withdraw_check(self, who: ActorId, amount: u128) -> Option<StakingError> {
        if amount == 0 {
            Some(StakingError::InvalidAmount)
        } else if !self.has_staker(who) {
            Some(StakingError::UnknownStaker)
        } else if self.stake_of(who) < amount {
            Some(StakingError::InsufficientBalance)
        } else {
            None
        }
    }
}

/// The staking ledger: its owner, the asset ledger it delegates transfers
/// to, one entry per depositor, and the total of all stakes.
#[derive(Debug)]
pub struct Staking {
    pub owner: ActorId,
    pub token_address: ActorId,
    pub stakers: Vec<(ActorId, Staker)>,
    pub total_staked: u128,
}

impl View for Staking {
    type V = StakingView;

    open spec fn view(&self) -> StakingView {
        StakingView {
            owner: self.owner,
            token_address: self.token_address,
            stakers: self.stakers@,
            total_staked: self.total_staked,
        }
    }
}

impl Staking {
    /// A ledger owned by `owner` that delegates to `token_address`, with no
    /// stakes.
    pub fn new(owner: ActorId, token_address: ActorId) -> (r: Staking)
        ensures
            r@.wf(),
            r@.balanced(),
            r@.owner == owner,
            r@.token_address == token_address,
            r@.stakers == Seq::<(ActorId, Staker)>::empty(),
            r@.total_staked == 0,
    {
        Staking { owner, token_address, stakers: Vec::new(), total_staked: 0 }
    }

    /// Whether each depositor has at most one entry.
    pub fn is_well_formed(&self) -> (r: bool)
        ensures
            r == self@.wf(),
    {
        let n = self.stakers.len();
        let mut i: usize = 0;
        while i < n
            invariant
                i <= n,
                n == self.stakers@.len(),
                forall|a: int, b: int|
                    0 <= a < i && 0 <= b < n && a != b ==> #[trigger] self.stakers@[a].0
                        != #[trigger] self.stakers@[b].0,
            decreases n - i,
        {
            let mut j: usize = 0;
            while j < n
                invariant
                    i < n,
                    j <= n,
                    n == self.stakers@.len(),
                    forall|a: int, b: int|
                        0 <= a < i && 0 <= b < n && a != b ==> #[trigger] self.stakers@[a].0
                            != #[trigger] self.stakers@[b].0,
                    forall|b: int|
                        0 <= b < j && b != i ==> self.stakers@[i as int].0
                            != #[trigger] self.stakers@[b].0,
                decreases n - j,
            {
                if j != i && self.stakers[i].0 == self.stakers[j].0 {
                    assert(!keys_unique(self.stakers@)) by {
                        assert(self.stakers@[i as int].0 == self.stakers@[j as int].0);
                    }
                    return false;
                }
                j = j + 1;
            }
            assert forall|a: int, b: int|
                0 <= a < i + 1 && 0 <= b < n && a != b implies #[trigger] self.stakers@[a].0
                    != #[trigger] self.stakers@[b].0 by {
                if a == i && b != i {
                    assert(self.stakers@[i as int].0 != self.stakers@[b].0);
                }
            }
            i = i + 1;
        }
        true
    }

    /// The index of the entry of `who`, if there is one.
    fn position(&self, who: &ActorId) -> (r: Option<usize>)
        requires
            self@.wf(),
        ensures
            match r {
                Some(i) => i < self.stakers@.len() && i as int == find(self.stakers@, *who),
                None => find(self.stakers@, *who) == -1,
            },
    {
        let mut k: usize = 0;
        while k < self.stakers.len()
            invariant
                self@.wf(),
                k <= self.stakers@.len(),
                forall|j: int| 0 <= j < k ==> self.stakers@[j].0 != *who,
            decreases self.stakers@.len() - k,
        {
            if self.stakers[k].0 == *who {
                proof {
                    lemma_find_unique(self.stakers@, *who, k as int);
                }
                return Some(k);
            }
            k = k + 1;
        }
        proof {
            lemma_find(self.stakers@, *who);
        }
        None
    }

    /// The stake recorded for `staker_id`: zero where it never staked.
    pub fn stake_of(&self, staker_id: ActorId) -> (r: Staker)
        requires
            self@.wf(),
        ensures
            r.balance == self@.stake_of(staker_id),
    {
        match self.position(&staker_id) {
            Some(i) => self.stakers[i].1,
            None => Staker { balance: 0 },
        }
    }

    /// Checks a stake of `amount` by `caller` and gives the transfer that
    /// must be confirmed before it is recorded: `amount` from `caller` to
    /// `program_id`, this ledger's own account.
    pub fn stake(&self, caller: ActorId, program_id: ActorId, amount: u128) -> (r: Result<
        TransferRequest,
        StakingError,
    >)
        ensures
            amount == 0 ==> r == Err::<TransferRequest, StakingError>(StakingError::InvalidAmount),
            amount != 0 ==> r == Ok::<TransferRequest, StakingError>(
                (TransferRequest {
                    token_address: self.token_address,
                    from: caller,
                    to: program_id,
                    amount,
                }),
            ),
    {
        if amount == 0 {
            return Err(StakingError::InvalidAmount);
        }
        Ok(TransferRequest { token_address: self.token_address, from: caller, to: program_id, amount })
    }

    /// Records the outcome of the transfer of a stake of `amount` by
    /// `staker`. Only a completed transfer is recorded.
    pub fn complete_stake(&mut self, staker: ActorId, amount: u128, outcome: TransferOutcome) -> (r:
        Result<StakingEvent, StakingError>)
        requires
            old(self)@.wf(),
        ensures
            final(self)@.wf(),
            outcome == TransferOutcome::Completed ==> final(self)@ == old(self)@.after_stake(
                staker,
                amount,
            ) && r == Ok::<StakingEvent, StakingError>(StakingEvent::Staked(amount)),
            outcome == TransferOutcome::Rejected ==> final(self)@ == old(self)@ && r == Err::<
                StakingEvent,
                StakingError,
            >(StakingError::TransferFailed),
    {
        if outcome == TransferOutcome::Rejected {
            return Err(StakingError::TransferFailed);
        }
        let ghost s = self.stakers@;
        proof {
            lemma_credit(s, staker, amount);
            lemma_find(s, staker);
        }
        match self.position(&staker) {
            Some(i) => {
                let balance = self.stakers[i].1.balance;
                self.stakers.set(i, (staker, Staker { balance: balance.saturating_add(amount) }));
            },
            None => {
                self.stakers.push((staker, Staker { balance: amount }));
            },
        }
        self.total_staked = self.total_staked.saturating_add(amount);
        proof {
            assert(self.stakers@ =~= credit(s, staker, amount));
        }
        Ok(StakingEvent::Staked(amount))
    }

    /// Checks a withdrawal of `amount` by `caller` and gives the transfer
    /// that must be confirmed before it is recorded: `amount` from
    /// `program_id`, this ledger's own account, back to `caller`.
    pub fn withdraw(&self, caller: ActorId, program_id: ActorId, amount: u128) -> (r: Result<
        TransferRequest,
        StakingError,
    >)
        requires
            self@.wf(),
        ensures
            match self@.withdraw_check(caller, amount) {
                Some(e) => r == Err::<TransferRequest, StakingError>(e),
                None => r == Ok::<TransferRequest, StakingError>(
                    (TransferRequest {
                        token_address: self.token_address,
                        from: program_id,
                        to: caller,
                        amount,
                    }),
                ),
            },
    {
        if amount == 0 {
            return Err(StakingError::InvalidAmount);
        }
        match self.position(&caller) {
            None => Err(StakingError::UnknownStaker),
            Some(i) => {
                if self.stakers[i].1.balance < amount {
                    Err(StakingError::InsufficientBalance)
                } else {
                    Ok(
                        TransferRequest {
                            token_address: self.token_address,
                            from: program_id,
                            to: caller,
                            amount,
                        },
                    )
                }
            },
        }
    }

    /// Records the outcome of the transfer of a withdrawal of `amount` by
    /// `staker`. Only a completed transfer of an account with an entry is
    /// recorded.
    pub fn complete_withdraw(
        &mut self,
        staker: ActorId,
        amount: u128,
        outcome: TransferOutcome,
    ) -> (r: Result<StakingEvent, StakingError>)
        requires
            old(self)@.wf(),
        ensures
            final(self)@.wf(),
            outcome == TransferOutcome::Rejected ==> final(self)@ == old(self)@ && r == Err::<
                StakingEvent,
                StakingError,
            >(StakingError::TransferFailed),
            outcome == TransferOutcome::Completed && !old(self)@.has_staker(staker) ==> final(self)@ == old(self)@ && r == Err::<StakingEvent, StakingError>(
                StakingError::UnknownStaker,
            ),
            outcome == TransferOutcome::Completed && old(self)@.has_staker(staker) ==> final(self)@ == old(self)@.after_withdraw(staker, amount) && r == Ok::<
                StakingEvent,
                StakingError,
            >(StakingEvent::Withdrawed(amount)),
    {
        if outcome == TransferOutcome::Rejected {
            return Err(StakingError::TransferFailed);
        }
        let ghost s = self.stakers@;
        match self.position(&staker) {
            None => Err(StakingError::UnknownStaker),
            Some(i) => {
                let balance = self.stakers[i].1.balance;
                self.stakers.set(i, (staker, Staker { balance: balance.saturating_sub(amount) }));
                self.total_staked = self.total_staked.saturating_sub(amount);
                proof {
                    lemma_find(s, staker);
                    lemma_debit(s, staker, amount);
                    assert(self.stakers@ =~= debit(s, staker, amount));
                }
                Ok(StakingEvent::Withdrawed(amount))
            },
        }
    }

    /// Replaces the asset ledger that transfers go to. Only the owner may.
    pub fn update_configuration(
        &mut self,
        caller: ActorId,
        configuration: StakingInitialConfiguration,
    ) -> (r: Result<StakingEvent, StakingError>)
        ensures
            caller == old(self).owner ==> final(self)@ == (StakingView {
                token_address: configuration.token_address,
                ..old(self)@
            }) && r == Ok::<StakingEvent, StakingError>(StakingEvent::ConfigurationUpdate),
            caller != old(self).owner ==> final(self)@ == old(self)@ && r == Err::<
                StakingEvent,
                StakingError,
            >(StakingError::Unauthorized),
    {
        if caller != self.owner {
            return Err(StakingError::Unauthorized);
        }
        self.token_address = configuration.token_address;
        Ok(StakingEvent::ConfigurationUpdate)
    }
}

} // verus!
