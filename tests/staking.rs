use polkapad_staking::{
    handle, init, meta_state, resume, ActorId, PendingKind, Staker, Staking, StakingAction,
    StakingError, StakingEvent, StakingInitialConfiguration, StakingReply, StakingState, Step,
    TransferOutcome, TransferRequest,
};

const TOKEN_ADDRESS: u64 = 1;
const STAKING_ADDRESS: u64 = 2;

const DEPLOYER: u64 = 10;
const ALICE: u64 = 11;
const BOB: u64 = 12;

fn id(n: u64) -> ActorId {
    ActorId::from_u64(n)
}

/// A fungible-token ledger standing in for the asset-ledger actor.
struct Token {
    balances: Vec<(ActorId, u128)>,
}

impl Token {
    fn balance_of(&self, who: ActorId) -> u128 {
        self.balances.iter().find(|(k, _)| *k == who).map(|(_, b)| *b).unwrap_or(0)
    }

    fn set(&mut self, who: ActorId, amount: u128) {
        match self.balances.iter_mut().find(|(k, _)| *k == who) {
            Some(entry) => entry.1 = amount,
            None => self.balances.push((who, amount)),
        }
    }

    fn transfer(&mut self, request: &TransferRequest) -> TransferOutcome {
        assert_eq!(request.token_address, id(TOKEN_ADDRESS));
        let from = self.balance_of(request.from);
        if from < request.amount {
            return TransferOutcome::Rejected;
        }
        self.set(request.from, from - request.amount);
        let to = self.balance_of(request.to);
        self.set(request.to, to + request.amount);
        TransferOutcome::Completed
    }
}

fn init_staking_token() -> Token {
    let mut token = Token { balances: vec![(id(DEPLOYER), 1000)] };
    let moved = token.transfer(&TransferRequest {
        token_address: id(TOKEN_ADDRESS),
        from: id(DEPLOYER),
        to: id(ALICE),
        amount: 100,
    });
    assert_eq!(moved, TransferOutcome::Completed);
    assert_eq!(token.balance_of(id(ALICE)), 100);
    token
}

fn init_staking() -> Option<Staking> {
    Some(init(
        id(DEPLOYER),
        StakingInitialConfiguration { token_address: id(TOKEN_ADDRESS) },
    ))
}

/// Runs one request to completion, the transfer included.
fn send(
    state: &mut Option<Staking>,
    token: &mut Token,
    caller: u64,
    action: StakingAction,
) -> Result<StakingEvent, StakingError> {
    match handle(state, id(caller), id(STAKING_ADDRESS), action)? {
        Step::Reply(event) => Ok(event),
        Step::Transfer(pending) => {
            let outcome = token.transfer(&pending.request);
            resume(state, pending, outcome)
        }
    }
}

fn staked(state: &Option<Staking>, who: u64) -> u128 {
    match meta_state(state.as_ref().unwrap(), StakingState::StakeOf(id(who))) {
        StakingReply::Staked(b) => b,
        other => panic!("unexpected reply {:?}", other),
    }
}

fn total(state: &Option<Staking>) -> u128 {
    match meta_state(state.as_ref().unwrap(), StakingState::TotalStaked) {
        StakingReply::TotalStaked(t) => t,
        other => panic!("unexpected reply {:?}", other),
    }
}

#[test]
fn stake_50_plpd_should_staked() {
    let mut token = init_staking_token();
    let mut staking = init_staking();

    let to_stake: u128 = 50;
    let expected_staked: u128 = 50;

    let result = send(&mut staking, &mut token, ALICE, StakingAction::Stake(to_stake));
    assert_eq!(result, Ok(StakingEvent::Staked(expected_staked)));

    assert_eq!(token.balance_of(id(ALICE)), to_stake);
    assert_eq!(token.balance_of(id(STAKING_ADDRESS)), expected_staked);
    assert_eq!(staked(&staking, ALICE), 50);
    assert_eq!(total(&staking), 50);
}

#[test]
fn stake_150_plpd_should_failed() {
    let mut token = init_staking_token();
    let mut staking = init_staking();

    let to_stake: u128 = 150;

    let result = send(&mut staking, &mut token, ALICE, StakingAction::Stake(to_stake));
    assert_eq!(result, Err(StakingError::TransferFailed));
    assert_eq!(staked(&staking, ALICE), 0);
    assert_eq!(total(&staking), 0);
    assert_eq!(token.balance_of(id(ALICE)), 100);
}

#[test]
fn stake_0_plpd_should_failed() {
    let mut token = init_staking_token();
    let mut staking = init_staking();

    let to_stake: u128 = 0;

    let result = send(&mut staking, &mut token, ALICE, StakingAction::Stake(to_stake));
    assert_eq!(result, Err(StakingError::InvalidAmount));
    assert_eq!(token.balance_of(id(ALICE)), 100);
}

#[test]
fn stake_50_then_withraw_25_should_withdrawed_25() {
    let mut token = init_staking_token();
    let mut staking = init_staking();

    let to_stake: u128 = 50;
    let expected_staked: u128 = 50;

    let to_withdraw: u128 = 25;
    let expected_withdraw: u128 = 25;
    let expected_balance: u128 = 75;

    let result = send(&mut staking, &mut token, ALICE, StakingAction::Stake(to_stake));
    assert_eq!(result, Ok(StakingEvent::Staked(expected_staked)));

    let result = send(&mut staking, &mut token, ALICE, StakingAction::Withdraw(to_withdraw));
    assert_eq!(result, Ok(StakingEvent::Withdrawed(expected_withdraw)));

    assert_eq!(token.balance_of(id(ALICE)), expected_balance);

    let result = send(&mut staking, &mut token, ALICE, StakingAction::StakeOf(id(ALICE)));
    assert_eq!(
        result,
        Ok(StakingEvent::StakeOf(Staker { balance: expected_staked - to_withdraw }))
    );

    assert_eq!(token.balance_of(id(STAKING_ADDRESS)), expected_withdraw);
    assert_eq!(total(&staking), 25);
}

#[test]
fn stake_50_then_withdraw_75_should_failed() {
    let mut token = init_staking_token();
    let mut staking = init_staking();

    let to_stake: u128 = 50;
    let expected_staked: u128 = 50;

    let to_withdaw: u128 = 75;

    let result = send(&mut staking, &mut token, ALICE, StakingAction::Stake(to_stake));
    assert_eq!(result, Ok(StakingEvent::Staked(expected_staked)));

    let result = send(&mut staking, &mut token, ALICE, StakingAction::Withdraw(to_withdaw));
    assert_eq!(result, Err(StakingError::InsufficientBalance));
    assert_eq!(staked(&staking, ALICE), 50);
    assert_eq!(token.balance_of(id(ALICE)), 50);
}

#[test]
fn total_matches_sum_over_several_accounts() {
    let mut token = init_staking_token();
    token.set(id(BOB), 100);
    let mut staking = init_staking();

    assert_eq!(send(&mut staking, &mut token, ALICE, StakingAction::Stake(30)), Ok(StakingEvent::Staked(30)));
    assert_eq!(send(&mut staking, &mut token, BOB, StakingAction::Stake(45)), Ok(StakingEvent::Staked(45)));
    assert_eq!(send(&mut staking, &mut token, ALICE, StakingAction::Withdraw(10)), Ok(StakingEvent::Withdrawed(10)));
    assert_eq!(send(&mut staking, &mut token, BOB, StakingAction::Withdraw(45)), Ok(StakingEvent::Withdrawed(45)));

    assert_eq!(staked(&staking, ALICE), 20);
    assert_eq!(staked(&staking, BOB), 0);
    assert_eq!(total(&staking), staked(&staking, ALICE) + staked(&staking, BOB));
    assert_eq!(token.balance_of(id(STAKING_ADDRESS)), 20);
    // an account that withdrew everything keeps its entry
    assert_eq!(staking.as_ref().unwrap().stakers.len(), 2);
}

#[test]
fn staking_twice_accumulates() {
    let mut token = init_staking_token();
    let mut staking = init_staking();

    send(&mut staking, &mut token, ALICE, StakingAction::Stake(20)).unwrap();
    send(&mut staking, &mut token, ALICE, StakingAction::Stake(20)).unwrap();
    assert_eq!(staked(&staking, ALICE), 40);
    assert_eq!(total(&staking), 40);
    assert_eq!(staking.as_ref().unwrap().stakers.len(), 1);
}

#[test]
fn withdraw_of_whole_stake_leaves_zero() {
    let mut token = init_staking_token();
    let mut staking = init_staking();

    send(&mut staking, &mut token, ALICE, StakingAction::Stake(50)).unwrap();
    let result = send(&mut staking, &mut token, ALICE, StakingAction::Withdraw(50));
    assert_eq!(result, Ok(StakingEvent::Withdrawed(50)));
    assert_eq!(staked(&staking, ALICE), 0);
    assert_eq!(total(&staking), 0);
    assert_eq!(token.balance_of(id(ALICE)), 100);
}

#[test]
fn withdraw_zero_is_invalid_amount() {
    let mut token = init_staking_token();
    let mut staking = init_staking();

    send(&mut staking, &mut token, ALICE, StakingAction::Stake(50)).unwrap();
    let result = send(&mut staking, &mut token, ALICE, StakingAction::Withdraw(0));
    assert_eq!(result, Err(StakingError::InvalidAmount));
    assert_eq!(staked(&staking, ALICE), 50);
    assert_eq!(total(&staking), 50);
}

#[test]
fn withdraw_without_stake_is_unknown_staker() {
    let mut token = init_staking_token();
    let mut staking = init_staking();

    let result = send(&mut staking, &mut token, ALICE, StakingAction::Withdraw(5));
    assert_eq!(result, Err(StakingError::UnknownStaker));
    assert_eq!(staking.as_ref().unwrap().stakers.len(), 0);
}

#[test]
fn rejected_withdraw_transfer_records_nothing() {
    let mut token = init_staking_token();
    let mut staking = init_staking();

    send(&mut staking, &mut token, ALICE, StakingAction::Stake(50)).unwrap();
    let step = handle(&mut staking, id(ALICE), id(STAKING_ADDRESS), StakingAction::Withdraw(20)).unwrap();
    let pending = match step {
        Step::Transfer(p) => p,
        Step::Reply(e) => panic!("unexpected reply {:?}", e),
    };
    assert_eq!(pending.kind, PendingKind::Withdraw);
    assert_eq!(pending.request.from, id(STAKING_ADDRESS));
    assert_eq!(pending.request.to, id(ALICE));
    assert_eq!(pending.request.amount, 20);
    let result = resume(&mut staking, pending, TransferOutcome::Rejected);
    assert_eq!(result, Err(StakingError::TransferFailed));
    assert_eq!(staked(&staking, ALICE), 50);
    assert_eq!(total(&staking), 50);
}

#[test]
fn stake_request_moves_tokens_to_the_ledger() {
    let staking = init_staking().unwrap();
    let request = staking.stake(id(ALICE), id(STAKING_ADDRESS), 7).unwrap();
    assert_eq!(
        request,
        TransferRequest {
            token_address: id(TOKEN_ADDRESS),
            from: id(ALICE),
            to: id(STAKING_ADDRESS),
            amount: 7,
        }
    );
    assert_eq!(staking.stake(id(ALICE), id(STAKING_ADDRESS), 0), Err(StakingError::InvalidAmount));
}

#[test]
fn reconfigure_by_owner_succeeds() {
    let mut token = init_staking_token();
    let mut staking = init_staking();

    let result = send(
        &mut staking,
        &mut token,
        DEPLOYER,
        StakingAction::UpdateConfiguration(StakingInitialConfiguration { token_address: id(99) }),
    );
    assert_eq!(result, Ok(StakingEvent::ConfigurationUpdate));
    assert_eq!(
        meta_state(staking.as_ref().unwrap(), StakingState::TokenAddress),
        StakingReply::TokenAddress(id(99))
    );
    assert_eq!(
        meta_state(staking.as_ref().unwrap(), StakingState::Owner),
        StakingReply::Owner(id(DEPLOYER))
    );
}

#[test]
fn reconfigure_by_other_is_unauthorized() {
    let mut token = init_staking_token();
    let mut staking = init_staking();

    let result = send(
        &mut staking,
        &mut token,
        ALICE,
        StakingAction::UpdateConfiguration(StakingInitialConfiguration { token_address: id(99) }),
    );
    assert_eq!(result, Err(StakingError::Unauthorized));
    assert_eq!(
        meta_state(staking.as_ref().unwrap(), StakingState::TokenAddress),
        StakingReply::TokenAddress(id(TOKEN_ADDRESS))
    );
}

#[test]
fn requests_before_init_fail() {
    let mut token = init_staking_token();
    let mut staking: Option<Staking> = None;

    let result = send(&mut staking, &mut token, ALICE, StakingAction::Stake(50));
    assert_eq!(result, Err(StakingError::NotInitialized));
    assert!(staking.is_none());
    assert_eq!(token.balance_of(id(ALICE)), 100);
}

#[test]
fn stake_saturates_at_the_ceiling() {
    let mut staking = init_staking();
    let first = TransferRequest {
        token_address: id(TOKEN_ADDRESS),
        from: id(ALICE),
        to: id(STAKING_ADDRESS),
        amount: u128::MAX - 1,
    };
    let pending = polkapad_staking::PendingTransfer { kind: PendingKind::Stake, staker: id(ALICE), request: first };
    assert_eq!(resume(&mut staking, pending, TransferOutcome::Completed), Ok(StakingEvent::Staked(u128::MAX - 1)));
    let second = polkapad_staking::PendingTransfer {
        kind: PendingKind::Stake,
        staker: id(ALICE),
        request: TransferRequest { amount: 5, ..first },
    };
    assert_eq!(resume(&mut staking, second, TransferOutcome::Completed), Ok(StakingEvent::Staked(5)));
    assert_eq!(staked(&staking, ALICE), u128::MAX);
    assert_eq!(total(&staking), u128::MAX);
}

#[test]
fn unknown_account_reads_zero() {
    let staking = init_staking().unwrap();
    assert_eq!(staking.stake_of(id(BOB)), Staker { balance: 0 });
    assert_eq!(meta_state(&staking, StakingState::StakeOf(id(BOB))), StakingReply::Staked(0));
    assert_eq!(staking.stakers.len(), 0);
}

#[test]
fn actor_ids_compare_by_bytes() {
    assert_eq!(id(ALICE), id(ALICE));
    assert_ne!(id(ALICE), id(BOB));
    let mut bytes = [0u8; 32];
    bytes[12] = 11;
    assert_eq!(ActorId::new(bytes), id(ALICE));
    let mut other = bytes;
    other[31] = 1;
    assert_ne!(ActorId::new(other), id(ALICE));
    assert_eq!(ActorId::zero(), id(0));
    assert_eq!(ActorId::from_u64(0x0102).0[13], 1);
}
