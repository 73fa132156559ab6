use vstd::prelude::*;

use crate::actor_id::ActorId;
use crate::io::{
    Staker, StakingAction, StakingError, StakingEvent, StakingInitialConfiguration, StakingReply,
    StakingState, TransferOutcome, TransferRequest,
};
use crate::staking::Staking;

verus! {

/// Which operation waits for a transfer.
#[derive(Clone, Copy, Debug, PartialEq, Eq, Structural)]
pub enum PendingKind {
    Stake,
    Withdraw,
}

/// A stake or withdrawal that has passed its checks and waits for the asset
/// ledger to answer `request`.
#[derive(Clone, Copy, Debug)]
pub struct PendingTransfer {
    pub kind: PendingKind,
    pub staker: ActorId,
    pub request: TransferRequest,
}

/// What the actor does next with a request that passed its checks.
#[derive(Clone, Copy, Debug)]
pub enum Step {
    /// Reply with this event: the request is done.
    Reply(StakingEvent),
    /// Send the transfer to the asset ledger, then hand its answer to
    /// `resume`.
    Transfer(PendingTransfer),
}

/// Creates the ledger at start-up: `source`, who initializes it, becomes
/// its owner.
pub fn init(source: ActorId, config: StakingInitialConfiguration) -> (r: Staking)
    ensures
        r@.wf(),
        r@.balanced(),
        r@.owner == source,
        r@.token_address == config.token_address,
        r@.stakers.len() == 0,
        r@.total_staked == 0,
{
    Staking::new(source, config.token_address)
}

/// Answers a read-only query of the ledger.
pub fn meta_state(staking: &Staking, query: StakingState) -> (r: StakingReply)
    requires
        staking@.wf(),
    ensures
        match query {
            StakingState::Owner => r == StakingReply::Owner(staking.owner),
            StakingState::StakeOf(id) => r == StakingReply::Staked(staking@.stake_of(id)),
            StakingState::TotalStaked => r == StakingReply::TotalStaked(staking.total_staked),
            StakingState::TokenAddress => r == StakingReply::TokenAddress(staking.token_address),
        },
{
    match query {
        StakingState::Owner => StakingReply::Owner(staking.owner),
        StakingState::StakeOf(id) => StakingReply::Staked(staking.stake_of(id).balance),
        StakingState::TotalStaked => StakingReply::TotalStaked(staking.total_staked),
        StakingState::TokenAddress => StakingReply::TokenAddress(staking.token_address),
    }
}

/// Takes one inbound request from `caller` up to its first suspension:
/// checks it, and either finishes it or gives the transfer it waits for.
/// `program_id` is the ledger's own account. Before initialization every
/// request fails.
pub fn handle(
    state: &mut Option<Staking>,
    caller: ActorId,
    program_id: ActorId,
    action: StakingAction,
) -> (r: Result<Step, StakingError>)
    requires
        (*old(state)) is Some ==> (*old(state))->Some_0@.wf(),
    ensures
        (*old(state)) is None ==> *final(state) == *old(state) && r == Err::<Step, StakingError>(
            StakingError::NotInitialized,
        ),
        (*old(state)) is Some ==> (*final(state)) is Some && (*final(state))->Some_0@.wf(),
        (*old(state)) is Some ==> match action {
            StakingAction::Stake(amount) => (*final(state))->Some_0@ == (*old(state))->Some_0@ && if amount
                == 0 {
                r == Err::<Step, StakingError>(StakingError::InvalidAmount)
            } else {
                r is Ok && r->Ok_0 is Transfer && r->Ok_0->Transfer_0 == (PendingTransfer {
                    kind: PendingKind::Stake,
                    staker: caller,
                    request: TransferRequest {
                        token_address: (*old(state))->Some_0.token_address,
                        from: caller,
                        to: program_id,
                        amount,
                    },
                })
            },
            StakingAction::Withdraw(amount) => (*final(state))->Some_0@ == (*old(state))->Some_0@
                && match (*old(state))->Some_0@.withdraw_check(caller, amount) {
                Some(e) => r == Err::<Step, StakingError>(e),
                None => r is Ok && r->Ok_0 is Transfer && r->Ok_0->Transfer_0 == (PendingTransfer {
                    kind: PendingKind::Withdraw,
                    staker: caller,
                    request: TransferRequest {
                        token_address: (*old(state))->Some_0.token_address,
                        from: program_id,
                        to: caller,
                        amount,
                    },
                }),
            },
            StakingAction::StakeOf(id) => (*final(state))->Some_0@ == (*old(state))->Some_0@ && r is Ok
                && r->Ok_0 is Reply && r->Ok_0->Reply_0 == StakingEvent::StakeOf(
                Staker { balance: (*old(state))->Some_0@.stake_of(id) },
            ),
            StakingAction::UpdateConfiguration(c) => if caller == (*old(state))->Some_0.owner {
                (*final(state))->Some_0.token_address == c.token_address && (*final(state))->Some_0.owner
                    == (*old(state))->Some_0.owner && (*final(state))->Some_0@.stakers == (*old(state))->Some_0@.stakers && (*final(state))->Some_0.total_staked == (*old(state))->Some_0.total_staked && r is Ok && r->Ok_0 is Reply && r->Ok_0->Reply_0
                    == StakingEvent::ConfigurationUpdate
            } else {
                (*final(state))->Some_0@ == (*old(state))->Some_0@ && r == Err::<Step, StakingError>(
                    StakingError::Unauthorized,
                )
            },
        },
{
    match state {
        None => Err(StakingError::NotInitialized),
        Some(staking) => match action {
            StakingAction::Stake(amount) => match staking.stake(caller, program_id, amount) {
                Ok(request) => Ok(
                    Step::Transfer(PendingTransfer { kind: PendingKind::Stake, staker: caller, request }),
                ),
                Err(e) => Err(e),
            },
            StakingAction::Withdraw(amount) => match staking.withdraw(caller, program_id, amount) {
                Ok(request) => Ok(
                    Step::Transfer(
                        PendingTransfer { kind: PendingKind::Withdraw, staker: caller, request },
                    ),
                ),
                Err(e) => Err(e),
            },
            StakingAction::StakeOf(id) => Ok(Step::Reply(StakingEvent::StakeOf(staking.stake_of(id)))),
            StakingAction::UpdateConfiguration(c) => match staking.update_configuration(caller, c) {
                Ok(event) => Ok(Step::Reply(event)),
                Err(e) => Err(e),
            },
        },
    }
}

/// Finishes a stake or withdrawal once the asset ledger has answered its
/// transfer: a completed transfer is recorded, a rejected one fails the
/// request with nothing recorded.
pub fn resume(state: &mut Option<Staking>, pending: PendingTransfer, outcome: TransferOutcome) -> (r:
    Result<StakingEvent, StakingError>)
    requires
        (*old(state)) is Some ==> (*old(state))->Some_0@.wf(),
    ensures
        (*old(state)) is None ==> *final(state) == *old(state) && r == Err::<
            StakingEvent,
            StakingError,
        >(StakingError::NotInitialized),
        (*old(state)) is Some ==> (*final(state)) is Some && (*final(state))->Some_0@.wf(),
        (*old(state)) is Some && outcome == TransferOutcome::Rejected ==> (*final(state))->Some_0@ == (*old(state))->Some_0@ && r == Err::<StakingEvent, StakingError>(StakingError::TransferFailed),
        (*old(state)) is Some && outcome == TransferOutcome::Completed && pending.kind
            == PendingKind::Stake ==> (*final(state))->Some_0@ == (*old(state))->Some_0@.after_stake(
            pending.staker,
            pending.request.amount,
        ) && r == Ok::<StakingEvent, StakingError>(StakingEvent::Staked(pending.request.amount)),
        (*old(state)) is Some && outcome == TransferOutcome::Completed && pending.kind
            == PendingKind::Withdraw ==> if (*old(state))->Some_0@.has_staker(pending.staker) {
            (*final(state))->Some_0@ == (*old(state))->Some_0@.after_withdraw(
                pending.staker,
                pending.request.amount,
            ) && r == Ok::<StakingEvent, StakingError>(
                StakingEvent::Withdrawed(pending.request.amount),
            )
        } else {
            (*final(state))->Some_0@ == (*old(state))->Some_0@ && r == Err::<StakingEvent, StakingError>(
                StakingError::UnknownStaker,
            )
        },
{
    match state {
        None => Err(StakingError::NotInitialized),
        Some(staking) => match pending.kind {
            PendingKind::Stake => staking.complete_stake(pending.staker, pending.request.amount, outcome),
            PendingKind::Withdraw => staking.complete_withdraw(
                pending.staker,
                pending.request.amount,
                outcome,
            ),
        },
    }
}

} // verus!
