use vstd::prelude::*;

use crate::actor_id::ActorId;

verus! {

/// What the ledger is created with, and what the owner may later replace.
#[derive(Clone, Copy, Debug, PartialEq)]
pub struct StakingInitialConfiguration {
    pub token_address: ActorId,
}

/// The stake recorded for one depositor.
#[derive(Clone, Copy, Debug, Default, PartialEq, Eq, Structural)]
pub struct Staker {
    pub balance: u128,
}

/// An inbound request: it selects one operation of the ledger.
#[derive(Clone, Copy, Debug, PartialEq)]
pub enum StakingAction {
    Stake(u128),
    Withdraw(u128),
    StakeOf(ActorId),
    UpdateConfiguration(StakingInitialConfiguration),
}

/// The reply that a successful operation sends back to its caller.
#[derive(Clone, Copy, Debug, PartialEq, Eq, Structural)]
pub enum StakingEvent {
    Staked(u128),
    Withdrawed(u128),
    StakeOf(Staker),
    ConfigurationUpdate,
}

/// A read-only query of the ledger's state.
#[derive(Clone, Copy, Debug, PartialEq)]
pub enum StakingState {
    Owner,
    StakeOf(ActorId),
    TotalStaked,
    TokenAddress,
}

/// The answer to a `StakingState` query.
#[derive(Clone, Copy, Debug, PartialEq)]
pub enum StakingReply {
    Owner(ActorId),
    Staked(u128),
    TotalStaked(u128),
    TokenAddress(ActorId),
}

/// Why a request failed. A failed request leaves the ledger unchanged.
#[derive(Clone, Copy, Debug, PartialEq, Eq, Structural)]
pub enum StakingError {
    /// A stake or a withdrawal of zero.
    InvalidAmount,
    /// A withdrawal by an account that never staked.
    UnknownStaker,
    /// A withdrawal of more than the account has staked.
    InsufficientBalance,
    /// A reconfiguration by an account other than the owner.
    Unauthorized,
    /// The asset ledger rejected or could not complete the transfer.
    TransferFailed,
    /// The inbound request could not be decoded.
    DecodeFailure,
    /// A request that arrived before the ledger was initialized.
    NotInitialized,
}

/// A request to the asset-ledger actor at `token_address`: move `amount`
/// from `from` to `to`.
#[derive(Clone, Copy, Debug, PartialEq)]
pub struct TransferRequest {
    pub token_address: ActorId,
    pub from: ActorId,
    pub to: ActorId,
    pub amount: u128,
}

/// How the asset ledger answered a `TransferRequest`.
#[derive(Clone, Copy, Debug, PartialEq, Eq, Structural)]
pub enum TransferOutcome {
    /// The transfer was applied.
    Completed,
    /// The transfer was refused; nothing moved.
    Rejected,
}

} // verus!
