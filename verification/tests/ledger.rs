use ghost_pool::ledger::{
    authorize_withdrawal, check_investment_needed, deposit_with_policy, has_free_slot,
    init_pool_state, process_deposit, process_withdrawal, record_investment, record_yield,
    CapacityPolicy, DepositEntry, InvestmentDecision, LedgerError, PoolState, WithdrawalAuth,
    WithdrawalPhase, MAX_DEPOSITS,
};

fn two_depositors() -> PoolState {
    let state = init_pool_state();
    let state = process_deposit(11, 100, state).unwrap();
    process_deposit(22, 300, state).unwrap()
}

#[test]
fn new_pool_is_empty() {
    let state = init_pool_state();
    let vacant = DepositEntry {
        password_hash: 0,
        principal: 0,
        last_yield_checkpoint: 0,
        is_active: false,
    };
    assert_eq!(
        state,
        PoolState {
            deposits: [vacant; MAX_DEPOSITS],
            total_deposited: 0,
            total_invested: 0,
            pending_deposits: 0,
            yield_per_share: 0,
            deposit_count: 0,
        }
    );
}

#[test]
fn deposit_takes_the_first_free_slot() {
    let state = process_deposit(11, 100, init_pool_state()).unwrap();
    assert_eq!(
        state.deposits[0],
        DepositEntry { password_hash: 11, principal: 100, last_yield_checkpoint: 0, is_active: true }
    );
    assert!(!state.deposits[1].is_active);
    assert_eq!(state.total_deposited, 100);
    assert_eq!(state.pending_deposits, 100);
    assert_eq!(state.deposit_count, 1);
    let state = process_deposit(22, 300, state).unwrap();
    assert_eq!(
        state.deposits[1],
        DepositEntry { password_hash: 22, principal: 300, last_yield_checkpoint: 0, is_active: true }
    );
    assert_eq!(state.deposits[0].principal, 100);
    assert_eq!(state.total_deposited, 400);
    assert_eq!(state.pending_deposits, 400);
    assert_eq!(state.deposit_count, 2);
}

#[test]
fn deposit_count_matches_active_slots() {
    let mut state = init_pool_state();
    for (n, amount) in [5u64, 7, 9].iter().enumerate() {
        state = process_deposit(n as u128, *amount, state).unwrap();
        let active = state.deposits.iter().filter(|d| d.is_active).count();
        assert_eq!(state.deposit_count as usize, active);
        let principals: u64 = state.deposits.iter().filter(|d| d.is_active).map(|d| d.principal).sum();
        assert_eq!(state.total_deposited, principals);
    }
    assert_eq!(state.deposit_count, 2);
    assert_eq!(state.total_deposited, 12);
}

#[test]
fn total_is_principals_plus_recorded_yield() {
    let state = record_yield(init_pool_state(), 50).unwrap();
    assert_eq!(state.total_deposited, 0);
    let state = process_deposit(1, 100, state).unwrap();
    let state = record_yield(state, 40).unwrap();
    let state = process_deposit(2, 60, state).unwrap();
    let state = record_yield(state, 10).unwrap();
    assert_eq!(state.total_deposited, 100 + 60 + 40 + 10);
}

#[test]
fn deposit_into_a_full_pool_changes_nothing() {
    let full = two_depositors();
    assert_eq!(process_deposit(33, 500, full), Ok(full));
    assert!(!has_free_slot(&full));
    assert!(has_free_slot(&init_pool_state()));
}

#[test]
fn deposit_records_the_index_as_checkpoint() {
    let state = process_deposit(11, 100, init_pool_state()).unwrap();
    let state = record_yield(state, 40).unwrap();
    let state = process_deposit(22, 300, state).unwrap();
    assert_eq!(state.deposits[1].last_yield_checkpoint, 400_000_000);
    let late = authorize_withdrawal(22, 301, state).unwrap();
    assert!(!late.authorized);
    let early = authorize_withdrawal(11, 140, state).unwrap();
    assert_eq!(early, WithdrawalAuth { authorized: true, amount: 140, found_idx: 0 });
}

#[test]
fn policy_rejects_or_drops_on_a_full_pool() {
    let full = two_depositors();
    assert_eq!(CapacityPolicy::default(), CapacityPolicy::RejectWhenFull);
    assert_eq!(
        deposit_with_policy(CapacityPolicy::RejectWhenFull, 33, 500, full),
        Err(LedgerError::CapacityExhausted)
    );
    assert_eq!(deposit_with_policy(CapacityPolicy::DropSilently, 33, 500, full), Ok(full));
    let one = process_deposit(11, 100, init_pool_state()).unwrap();
    assert_eq!(
        deposit_with_policy(CapacityPolicy::RejectWhenFull, 22, 300, one),
        Ok(two_depositors())
    );
}

#[test]
fn investment_threshold_is_inclusive() {
    let state = two_depositors();
    assert_eq!(
        check_investment_needed(state, 400),
        InvestmentDecision { should_invest: true, amount_to_invest: 400 }
    );
    assert_eq!(
        check_investment_needed(state, 401),
        InvestmentDecision { should_invest: false, amount_to_invest: 0 }
    );
    assert_eq!(
        check_investment_needed(state, 0),
        InvestmentDecision { should_invest: true, amount_to_invest: 400 }
    );
}

#[test]
fn investment_moves_pending_to_invested() {
    let state = record_investment(two_depositors(), 150).unwrap();
    assert_eq!(state.total_invested, 150);
    assert_eq!(state.pending_deposits, 250);
    assert_eq!(state.total_deposited, 400);
    assert_eq!(record_investment(state, 251), Err(LedgerError::ArithmeticFault));
    let state = record_investment(state, 250).unwrap();
    assert_eq!(state.pending_deposits, 0);
    assert_eq!(state.total_invested, 400);
}

#[test]
fn yield_is_shared_in_proportion() {
    let state = record_yield(two_depositors(), 40).unwrap();
    assert_eq!(state.yield_per_share, 100_000_000);
    assert_eq!(state.total_deposited, 440);
    assert_eq!(state.deposits, two_depositors().deposits);
    assert_eq!(
        authorize_withdrawal(11, 110, state),
        Ok(WithdrawalAuth { authorized: true, amount: 110, found_idx: 0 })
    );
    assert_eq!(
        authorize_withdrawal(11, 111, state),
        Ok(WithdrawalAuth { authorized: false, amount: 0, found_idx: 0 })
    );
    assert_eq!(
        authorize_withdrawal(22, 330, state),
        Ok(WithdrawalAuth { authorized: true, amount: 330, found_idx: 1 })
    );
    assert_eq!(
        authorize_withdrawal(22, 331, state),
        Ok(WithdrawalAuth { authorized: false, amount: 0, found_idx: 1 })
    );
}

#[test]
fn rounding_can_hold_back_a_whole_unit() {
    let state = process_deposit(1, 3, init_pool_state()).unwrap();
    let state = record_yield(state, 1).unwrap();
    assert_eq!(state.yield_per_share, 333_333_333);
    assert_eq!(state.total_deposited, 4);
    assert!(authorize_withdrawal(1, 3, state).unwrap().authorized);
    assert!(!authorize_withdrawal(1, 4, state).unwrap().authorized);
}

#[test]
fn yield_on_an_empty_pool_is_lost() {
    let state = init_pool_state();
    assert_eq!(record_yield(state, 1_000), Ok(state));
}

#[test]
fn unknown_password_is_not_authorized() {
    let state = two_depositors();
    assert_eq!(
        authorize_withdrawal(99, 1, state),
        Ok(WithdrawalAuth { authorized: false, amount: 0, found_idx: 0 })
    );
    assert_eq!(
        authorize_withdrawal(0, 0, init_pool_state()),
        Ok(WithdrawalAuth { authorized: false, amount: 0, found_idx: 0 })
    );
}

#[test]
fn first_matching_slot_decides() {
    let state = process_deposit(7, 10, init_pool_state()).unwrap();
    let state = process_deposit(7, 500, state).unwrap();
    assert_eq!(
        authorize_withdrawal(7, 11, state),
        Ok(WithdrawalAuth { authorized: false, amount: 0, found_idx: 0 })
    );
    assert_eq!(
        authorize_withdrawal(7, 10, state),
        Ok(WithdrawalAuth { authorized: true, amount: 10, found_idx: 0 })
    );
}

#[test]
fn partial_withdrawal_compounds_and_resets_checkpoint() {
    let state = record_yield(two_depositors(), 40).unwrap();
    let state = process_withdrawal(state, 1, 30).unwrap();
    assert_eq!(
        state.deposits[1],
        DepositEntry {
            password_hash: 22,
            principal: 300,
            last_yield_checkpoint: 100_000_000,
            is_active: true,
        }
    );
    assert_eq!(state.total_deposited, 410);
    assert_eq!(state.deposit_count, 2);
    assert_eq!(state.deposits[0], two_depositors().deposits[0]);
}

#[test]
fn full_withdrawal_frees_the_slot_for_reuse() {
    let state = record_yield(two_depositors(), 40).unwrap();
    let state = process_withdrawal(state, 0, 110).unwrap();
    assert_eq!(
        state.deposits[0],
        DepositEntry {
            password_hash: 11,
            principal: 0,
            last_yield_checkpoint: 100_000_000,
            is_active: false,
        }
    );
    assert_eq!(state.deposit_count, 1);
    assert_eq!(state.total_deposited, 330);
    assert!(!authorize_withdrawal(11, 0, state).unwrap().authorized);
    let state = process_deposit(33, 70, state).unwrap();
    assert_eq!(
        state.deposits[0],
        DepositEntry {
            password_hash: 33,
            principal: 70,
            last_yield_checkpoint: 100_000_000,
            is_active: true,
        }
    );
    assert_eq!(state.deposit_count, 2);
    assert_eq!(state.total_deposited, 400);
}

#[test]
fn withdrawal_beyond_the_balance_faults() {
    let state = record_yield(two_depositors(), 40).unwrap();
    assert_eq!(process_withdrawal(state, 0, 111), Err(LedgerError::ArithmeticFault));
    assert_eq!(process_withdrawal(state, 0, 441), Err(LedgerError::ArithmeticFault));
}

#[test]
fn withdrawal_from_no_slot_only_lowers_the_total() {
    let state = two_depositors();
    let after = process_withdrawal(state, 2, 50).unwrap();
    assert_eq!(after, PoolState { total_deposited: 350, ..state });
    assert_eq!(process_withdrawal(state, 200, 401), Err(LedgerError::ArithmeticFault));
}

#[test]
fn checkpoint_ahead_of_the_index_faults() {
    let mut state = two_depositors();
    state.deposits[0].last_yield_checkpoint = 5;
    assert_eq!(authorize_withdrawal(11, 1, state), Err(LedgerError::ArithmeticFault));
    assert_eq!(process_withdrawal(state, 0, 1), Err(LedgerError::ArithmeticFault));
    assert!(authorize_withdrawal(22, 1, state).unwrap().authorized);
}

#[test]
fn totals_out_of_range_fault() {
    let state = process_deposit(1, u64::MAX, init_pool_state()).unwrap();
    assert_eq!(process_deposit(2, 1, state), Err(LedgerError::ArithmeticFault));
    assert_eq!(record_yield(state, 1), Err(LedgerError::ArithmeticFault));
    let small = process_deposit(1, 1, init_pool_state()).unwrap();
    assert_eq!(record_yield(small, u64::MAX), Err(LedgerError::ArithmeticFault));
    let mut odd = init_pool_state();
    odd.deposit_count = 255;
    assert_eq!(process_deposit(1, 1, odd), Err(LedgerError::ArithmeticFault));
    let mut none = two_depositors();
    none.deposit_count = 0;
    assert_eq!(process_withdrawal(none, 0, 100), Err(LedgerError::ArithmeticFault));
}

#[test]
fn large_balances_are_worked_out_exactly() {
    let mut state = process_deposit(1, 1 << 63, init_pool_state()).unwrap();
    state.yield_per_share = 3_000_000_000;
    let auth = authorize_withdrawal(1, u64::MAX, state).unwrap();
    assert_eq!(auth, WithdrawalAuth { authorized: true, amount: u64::MAX, found_idx: 0 });
    state.total_deposited = u64::MAX;
    assert_eq!(process_withdrawal(state, 0, 0), Err(LedgerError::ArithmeticFault));
}

#[test]
fn withdrawal_goes_through_its_phases() {
    let state = record_yield(two_depositors(), 40).unwrap();
    let refused = authorize_withdrawal(11, 111, state).unwrap();
    assert_eq!(WithdrawalPhase::Idle.authorize(refused), WithdrawalPhase::Idle);
    assert_eq!(WithdrawalPhase::Idle.settle(state), Err(LedgerError::NotAuthorized));
    assert_eq!(WithdrawalPhase::Settled.settle(state), Err(LedgerError::NotAuthorized));
    let granted = authorize_withdrawal(11, 110, state).unwrap();
    let phase = WithdrawalPhase::Idle.authorize(granted);
    assert_eq!(phase, WithdrawalPhase::Authorized { idx: 0, amount: 110 });
    assert_eq!(phase.authorize(refused), phase);
    assert_eq!(WithdrawalPhase::Settled.authorize(granted), WithdrawalPhase::Settled);
    let (phase, after) = phase.settle(state).unwrap();
    assert_eq!(phase, WithdrawalPhase::Settled);
    assert_eq!(Ok(after), process_withdrawal(state, 0, 110));
    let too_much = WithdrawalPhase::Authorized { idx: 0, amount: 111 };
    assert_eq!(too_much.settle(state), Err(LedgerError::ArithmeticFault));
}
