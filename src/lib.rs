//! A single-asset staking ledger: depositors stake a fungible asset held by an
//! external asset-ledger actor, withdraw part of it, and query balances.
//!
//! The ledger itself is a verified state machine. Moving tokens is left to the
//! caller: an operation that needs a transfer first returns the request to
//! send, and is completed once the asset ledger has answered.

mod actor_id;
mod io;
mod program;
pub mod staking;
pub mod theorems;

pub use actor_id::ActorId;
pub use io::{
    Staker, StakingAction, StakingError, StakingEvent, StakingInitialConfiguration, StakingReply,
    StakingState, TransferOutcome, TransferRequest,
};
pub use program::{handle, init, meta_state, resume, PendingKind, PendingTransfer, Step};
pub use staking::{Staking, StakingView};
