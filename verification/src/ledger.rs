//! The executable ledger: fixed-capacity pool state in machine integers, and
//! its transitions. Each transition computes what the model in
//! [`crate::model`] says, and reports an arithmetic fault where the model has
//! no result or its result does not fit the machine's integers.

use crate::model::{
    add_yield, answers, balance, deposit, empty, first_free, first_free_from, first_match,
    first_match_from, invest, investment_due, is_full, lookup, withdraw, Ledger, Lookup, Position,
    YIELD_SCALE,
};
use vstd::prelude::*;

verus! {

/// How many deposits a pool holds at once.
pub const MAX_DEPOSITS: usize = 2;

/// One slot of the pool's private ledger.
#[derive(Copy, Clone, Debug, PartialEq, Eq)]
pub struct DepositEntry {
    pub password_hash: u128,
    pub principal: u64,
    /// The global yield index at this entry's last settlement.
    pub last_yield_checkpoint: u64,
    pub is_active: bool,
}

/// The pool's private state.
#[derive(Copy, Clone, Debug, PartialEq, Eq)]
pub struct PoolState {
    pub deposits: [DepositEntry; MAX_DEPOSITS],
    pub total_deposited: u64,
    pub total_invested: u64,
    pub pending_deposits: u64,
    /// Cumulative yield per deposited unit, scaled by `YIELD_SCALE`.
    pub yield_per_share: u64,
    pub deposit_count: u8,
}

/// Whether to invest now, and how much.
#[derive(Copy, Clone, Debug, PartialEq, Eq)]
pub struct InvestmentDecision {
    pub should_invest: bool,
    pub amount_to_invest: u64,
}

/// Whether a withdrawal may go ahead, for how much, and from which slot.
#[derive(Copy, Clone, Debug, PartialEq, Eq)]
pub struct WithdrawalAuth {
    pub authorized: bool,
    pub amount: u64,
    pub found_idx: u8,
}

/// Why a transition was refused.
#[derive(Copy, Clone, Debug, PartialEq, Eq)]
pub enum LedgerError {
    /// A subtraction would go below zero, or a result does not fit its field.
    ArithmeticFault,
    /// Every slot is taken and the policy in force rejects the deposit.
    CapacityExhausted,
    /// A withdrawal was to be settled that had not been authorized.
    NotAuthorized,
}

impl View for DepositEntry {
    type V = Position;

    open spec fn view(&self) -> Position {
        Position {
            password_hash: self.password_hash,
            principal: self.principal as nat,
            checkpoint: self.last_yield_checkpoint as nat,
            active: self.is_active,
        }
    }
}

impl View for PoolState {
    type V = Ledger;

    open spec fn view(&self) -> Ledger {
        Ledger {
            positions: Seq::new(MAX_DEPOSITS as nat, |i: int| self.deposits[i]@),
            total_deposited: self.total_deposited as nat,
            total_invested: self.total_invested as nat,
            pending_deposits: self.pending_deposits as nat,
            yield_per_share: self.yield_per_share as nat,
            deposit_count: self.deposit_count as nat,
        }
    }
}

/// A ledger that some `PoolState` can hold: `MAX_DEPOSITS` slots, and every
/// number within its field's range.
pub open spec fn fits(l: Ledger) -> bool {
    &&& l.positions.len() == MAX_DEPOSITS
    &&& forall|i: int|
        0 <= i < l.positions.len() ==> (#[trigger] l.positions[i]).principal <= u64::MAX
            && l.positions[i].checkpoint <= u64::MAX
    &&& l.total_deposited <= u64::MAX
    &&& l.total_invested <= u64::MAX
    &&& l.pending_deposits <= u64::MAX
    &&& l.yield_per_share <= u64::MAX
    &&& l.deposit_count <= u8::MAX
}

/// `r` is what a transition returns whose model result is `expected`: the
/// state whose view is that result, or an arithmetic fault where the model
/// has no result or the result fits no `PoolState`.
pub open spec fn outcome_is(r: Result<PoolState, LedgerError>, expected: Option<Ledger>) -> bool {
    match r {
        Ok(s) => expected == Some(s@),
        Err(e) => e == LedgerError::ArithmeticFault && (expected matches Some(l) ==> !fits(l)),
    }
}

/// What `authorize_withdrawal` reveals of a lookup for `amount`.
pub open spec fn revealed(found: Lookup, amount: u64) -> WithdrawalAuth {
    if found.found && found.sufficient {
        WithdrawalAuth { authorized: true, amount, found_idx: found.slot as u8 }
    } else {
        WithdrawalAuth { authorized: false, amount: 0, found_idx: found.slot as u8 }
    }
}

/// Every state's view fits.
pub proof fn lemma_view_fits(s: PoolState)
    ensures
        fits(s@),
{
}

/// States with the same view are the same state.
pub proof fn lemma_view_injective(a: PoolState, b: PoolState)
    requires
        a@ == b@,
    ensures
        a == b,
{
    assert forall|i: int| 0 <= i < MAX_DEPOSITS implies a.deposits[i] == b.deposits[i] by {
        assert(a@.positions[i] == a.deposits[i]@);
        assert(b@.positions[i] == b.deposits[i]@);
    }
    assert(a.deposits =~= b.deposits);
}

/// The state of a new pool: nothing deposited, every slot free.
pub fn init_pool_state() -> (state: PoolState)
    ensures
        state@ == empty(MAX_DEPOSITS as nat),
{
    let empty_entry = DepositEntry {
        password_hash: 0u128,
        principal: 0,
        last_yield_checkpoint: 0,
        is_active: false,
    };
    let state = PoolState {
        deposits: [empty_entry; MAX_DEPOSITS],
        total_deposited: 0,
        total_invested: 0,
        pending_deposits: 0,
        yield_per_share: 0,
        deposit_count: 0,
    };
    assert(state@.positions =~= empty(MAX_DEPOSITS as nat).positions);
    state
}

/// What `entry` is worth at the global index `index`, or `None` when its
/// checkpoint lies ahead of the index.
fn current_balance(entry: &DepositEntry, index: u64) -> (r: Option<u128>)
    ensures
        match balance(entry@, index as nat) {
            Some(b) => r == Some(b as u128) && b <= u128::MAX,
            None => r is None,
        },
{
    if entry.last_yield_checkpoint > index {
        return None;
    }
    let principal: u128 = entry.principal as u128;
    let yield_delta: u128 = (index - entry.last_yield_checkpoint) as u128;
    assert(principal * yield_delta <= 0xffff_ffff_ffff_ffff * 0xffff_ffff_ffff_ffff)
        by (nonlinear_arith)
        requires
            principal <= 0xffff_ffff_ffff_ffff,
            yield_delta <= 0xffff_ffff_ffff_ffff,
    ;
    let accrued: u128 = principal * yield_delta / (YIELD_SCALE as u128);
    Some(principal + accrued)
}

/// Checks a withdrawal without changing anything. Every slot is looked at;
/// the first active one that stores `password_hash` decides: the withdrawal
/// is authorized when that slot's balance, principal and accrued yield,
/// covers `amount`. The amount is echoed only when authorized. Faults when
/// the deciding slot's checkpoint lies ahead of the index.
pub fn authorize_withdrawal(password_hash: u128, amount: u64, state: PoolState) -> (r: Result<
    WithdrawalAuth,
    LedgerError,
>)
    ensures
        match lookup(state@, password_hash, amount as nat) {
            Some(found) => r == Ok::<WithdrawalAuth, LedgerError>(revealed(found, amount)),
            None => r == Err::<WithdrawalAuth, LedgerError>(LedgerError::ArithmeticFault),
        },
{
    let mut found = false;
    let mut found_idx: u8 = 0;
    let mut actual_balance: Option<u128> = Some(0);
    let mut i: usize = 0;
    while i < MAX_DEPOSITS
        invariant
            0 <= i <= MAX_DEPOSITS,
            state@.positions.len() == MAX_DEPOSITS,
            found ==> found_idx < i && first_match(state@.positions, password_hash) == found_idx
                && match balance(state@.positions[found_idx as int], state@.yield_per_share) {
                Some(b) => actual_balance == Some(b as u128) && b <= u128::MAX,
                None => actual_balance is None,
            },
            !found ==> found_idx == 0 && first_match(state@.positions, password_hash)
                == first_match_from(state@.positions, password_hash, i as int),
        decreases MAX_DEPOSITS - i,
    {
        let matches = state.deposits[i].is_active && state.deposits[i].password_hash
            == password_hash;
        assert(state@.positions[i as int] == state.deposits[i as int]@);
        assert(matches == answers(state@.positions[i as int], password_hash));
        if matches && !found {
            found = true;
            found_idx = i as u8;
            actual_balance = current_balance(&state.deposits[i], state.yield_per_share);
        }
        i += 1;
    }
    if !found {
        return Ok(WithdrawalAuth { authorized: false, amount: 0, found_idx });
    }
    match actual_balance {
        None => Err(LedgerError::ArithmeticFault),
        Some(b) => {
            let sufficient = b >= amount as u128;
            Ok(
                WithdrawalAuth {
                    authorized: sufficient,
                    amount: if sufficient {
                        amount
                    } else {
                        0
                    },
                    found_idx,
                },
            )
        },
    }
}

/// Records a deposit. Every slot is looked at; the first inactive one takes
/// the hash and the amount, with its checkpoint at the current index, so that
/// no yield recorded earlier is owed to it. With every slot active nothing
/// changes and no error is reported. Faults when a total or the count would
/// leave its field's range.
pub fn process_deposit(password_hash: u128, amount: u64, state: PoolState) -> (r: Result<
    PoolState,
    LedgerError,
>)
    ensures
        outcome_is(r, Some(deposit(state@, password_hash, amount as nat))),
        is_full(state@.positions) ==> r == Ok::<PoolState, LedgerError>(state),
{
    let mut state = state;
    let ghost before = state;
    let mut found_slot = false;
    let mut slot_idx: usize = 0;
    let mut i: usize = 0;
    while i < MAX_DEPOSITS
        invariant
            0 <= i <= MAX_DEPOSITS,
            state == before,
            state@.positions.len() == MAX_DEPOSITS,
            found_slot ==> slot_idx < i && first_free(state@.positions) == slot_idx,
            !found_slot ==> first_free(state@.positions) == first_free_from(
                state@.positions,
                i as int,
            ),
        decreases MAX_DEPOSITS - i,
    {
        assert(state@.positions[i as int] == state.deposits[i as int]@);
        if !state.deposits[i].is_active && !found_slot {
            found_slot = true;
            slot_idx = i;
        }
        i += 1;
    }
    if !found_slot {
        return Ok(state);
    }
    let total_deposited = match state.total_deposited.checked_add(amount) {
        Some(v) => v,
        None => {
            return Err(LedgerError::ArithmeticFault);
        },
    };
    let pending_deposits = match state.pending_deposits.checked_add(amount) {
        Some(v) => v,
        None => {
            return Err(LedgerError::ArithmeticFault);
        },
    };
    let deposit_count = match state.deposit_count.checked_add(1) {
        Some(v) => v,
        None => {
            return Err(LedgerError::ArithmeticFault);
        },
    };
    state.deposits[slot_idx] = DepositEntry {
        password_hash,
        principal: amount,
        last_yield_checkpoint: state.yield_per_share,
        is_active: true,
    };
    state.total_deposited = total_deposited;
    state.pending_deposits = pending_deposits;
    state.deposit_count = deposit_count;
    assert(state@.positions =~= deposit(before@, password_hash, amount as nat).positions);
    Ok(state)
}

/// Settles a withdrawal of `amount` from slot `idx`. The slot's balance is
/// worked out as in `authorize_withdrawal`; what is left of it becomes the
/// slot's principal and its checkpoint moves to the current index. A slot left
/// with nothing is deactivated and the count falls by one. The pool's total
/// falls by `amount` whether or not `idx` names a slot. Faults when `amount`
/// exceeds the slot's balance or the pool's total, and wherever else the
/// model has no result or one that does not fit.
pub fn process_withdrawal(state: PoolState, idx: u8, amount: u64) -> (r: Result<
    PoolState,
    LedgerError,
>)
    ensures
        outcome_is(r, withdraw(state@, idx as int, amount as nat)),
{
    let mut state = state;
    let ghost before = state;
    if amount > state.total_deposited {
        return Err(LedgerError::ArithmeticFault);
    }
    if (idx as usize) < MAX_DEPOSITS {
        let i: usize = idx as usize;
        assert(state@.positions[i as int] == state.deposits[i as int]@);
        let current = match current_balance(&state.deposits[i], state.yield_per_share) {
            Some(b) => b,
            None => {
                return Err(LedgerError::ArithmeticFault);
            },
        };
        if amount as u128 > current {
            return Err(LedgerError::ArithmeticFault);
        }
        let new_balance: u128 = current - amount as u128;
        if new_balance > u64::MAX as u128 {
            proof {
                let l = withdraw(before@, idx as int, amount as nat).unwrap();
                assert(l.positions[i as int].principal == new_balance);
            }
            return Err(LedgerError::ArithmeticFault);
        }
        let mut entry = state.deposits[i];
        entry.principal = new_balance as u64;
        entry.last_yield_checkpoint = state.yield_per_share;
        if new_balance == 0 {
            if state.deposit_count == 0 {
                return Err(LedgerError::ArithmeticFault);
            }
            entry.is_active = false;
            state.deposit_count = state.deposit_count - 1;
        }
        state.deposits[i] = entry;
        state.total_deposited = state.total_deposited - amount;
        assert(state@.positions =~= withdraw(before@, idx as int, amount as nat).unwrap().positions);
        Ok(state)
    } else {
        state.total_deposited = state.total_deposited - amount;
        assert(state@.positions =~= before@.positions);
        Ok(state)
    }
}

/// Records a yield event: the global index rises by the yield per deposited
/// unit, scaled and rounded down, and the total grows by the yield. No
/// position is touched. A pool that holds nothing ignores the event. Faults
/// when the index or the total would leave its field's range.
pub fn record_yield(state: PoolState, yield_amount: u64) -> (r: Result<PoolState, LedgerError>)
    ensures
        outcome_is(r, Some(add_yield(state@, yield_amount as nat))),
        state.total_deposited == 0 ==> r == Ok::<PoolState, LedgerError>(state),
{
    let mut state = state;
    let ghost before = state;
    if state.total_deposited > 0 {
        assert(yield_amount * YIELD_SCALE <= u64::MAX * YIELD_SCALE) by (nonlinear_arith)
            requires
                yield_amount <= u64::MAX,
        ;
        let scaled: u128 = yield_amount as u128 * (YIELD_SCALE as u128);
        let yield_per_token: u128 = scaled / (state.total_deposited as u128);
        let index: u128 = state.yield_per_share as u128 + yield_per_token;
        if index > u64::MAX as u128 {
            return Err(LedgerError::ArithmeticFault);
        }
        let total_deposited = match state.total_deposited.checked_add(yield_amount) {
            Some(v) => v,
            None => {
                return Err(LedgerError::ArithmeticFault);
            },
        };
        state.yield_per_share = index as u64;
        state.total_deposited = total_deposited;
        assert(state@.positions =~= before@.positions);
    }
    Ok(state)
}

/// Says whether the pending deposits have reached `threshold`, the threshold
/// itself included, and if so reveals them as the amount to invest.
pub fn check_investment_needed(state: PoolState, threshold: u64) -> (decision: InvestmentDecision)
    ensures
        decision.should_invest == investment_due(state@, threshold as nat),
        decision.amount_to_invest == if decision.should_invest {
            state.pending_deposits
        } else {
            0
        },
{
    let should_invest = state.pending_deposits >= threshold;
    InvestmentDecision {
        should_invest,
        amount_to_invest: if should_invest {
            state.pending_deposits
        } else {
            0
        },
    }
}

/// Moves `amount` from pending to invested. Faults when less is pending, or
/// when the invested total would leave its field's range.
pub fn record_investment(state: PoolState, amount: u64) -> (r: Result<PoolState, LedgerError>)
    ensures
        outcome_is(r, invest(state@, amount as nat)),
{
    let mut state = state;
    let ghost before = state;
    if amount > state.pending_deposits {
        return Err(LedgerError::ArithmeticFault);
    }
    let total_invested = match state.total_invested.checked_add(amount) {
        Some(v) => v,
        None => {
            return Err(LedgerError::ArithmeticFault);
        },
    };
    state.total_invested = total_invested;
    state.pending_deposits = state.pending_deposits - amount;
    assert(state@.positions =~= before@.positions);
    Ok(state)
}

/// What a deposit into a full pool comes to.
#[derive(Copy, Clone, Debug, PartialEq, Eq)]
pub enum CapacityPolicy {
    /// The deposit is refused, so that the caller can refuse it before any
    /// funds move.
    RejectWhenFull,
    /// The deposit is dropped without a trace, as `process_deposit` does.
    DropSilently,
}

impl Default for CapacityPolicy {
    fn default() -> (policy: Self)
        ensures
            policy == CapacityPolicy::RejectWhenFull,
    {
        CapacityPolicy::RejectWhenFull
    }
}

/// Whether the next deposit finds a slot.
pub fn has_free_slot(state: &PoolState) -> (free: bool)
    ensures
        free == !is_full(state@.positions),
{
    let mut free = false;
    let mut i: usize = 0;
    while i < MAX_DEPOSITS
        invariant
            0 <= i <= MAX_DEPOSITS,
            state@.positions.len() == MAX_DEPOSITS,
            free ==> first_free(state@.positions) < i,
            !free ==> first_free(state@.positions) == first_free_from(state@.positions, i as int),
        decreases MAX_DEPOSITS - i,
    {
        assert(state@.positions[i as int] == state.deposits[i as int]@);
        if !state.deposits[i].is_active && !free {
            free = true;
        }
        i += 1;
    }
    free
}

/// Records a deposit under `policy`. With a free slot it is `process_deposit`
/// whatever the policy. With every slot active, `RejectWhenFull` refuses the
/// deposit as `CapacityExhausted` and `DropSilently` returns the state as it
/// is.
pub fn deposit_with_policy(
    policy: CapacityPolicy,
    password_hash: u128,
    amount: u64,
    state: PoolState,
) -> (r: Result<PoolState, LedgerError>)
    ensures
        is_full(state@.positions) ==> r == match policy {
            CapacityPolicy::RejectWhenFull => Err::<PoolState, LedgerError>(
                LedgerError::CapacityExhausted,
            ),
            CapacityPolicy::DropSilently => Ok::<PoolState, LedgerError>(state),
        },
        !is_full(state@.positions) ==> outcome_is(
            r,
            Some(deposit(state@, password_hash, amount as nat)),
        ),
{
    match policy {
        CapacityPolicy::RejectWhenFull => {
            if !has_free_slot(&state) {
                return Err(LedgerError::CapacityExhausted);
            }
        },
        CapacityPolicy::DropSilently => {},
    }
    process_deposit(password_hash, amount, state)
}

/// Where a withdrawal stands between its check and its settlement.
#[derive(Copy, Clone, Debug, PartialEq, Eq)]
pub enum WithdrawalPhase {
    /// Nothing has been authorized.
    Idle,
    /// `amount` may be taken from slot `idx`, and has not been yet.
    Authorized { idx: u8, amount: u64 },
    /// The authorized amount has been taken.
    Settled,
}

impl WithdrawalPhase {
    /// Takes note of a withdrawal check: an idle withdrawal that the check
    /// authorizes becomes authorized for the slot and amount revealed. Any
    /// other phase, and an idle one that the check refuses, stays as it is.
    pub fn authorize(self, auth: WithdrawalAuth) -> (next: WithdrawalPhase)
        ensures
            next == if self is Idle && auth.authorized {
                WithdrawalPhase::Authorized { idx: auth.found_idx, amount: auth.amount }
            } else {
                self
            },
    {
        match self {
            WithdrawalPhase::Idle => {
                if auth.authorized {
                    WithdrawalPhase::Authorized { idx: auth.found_idx, amount: auth.amount }
                } else {
                    self
                }
            },
            _ => self,
        }
    }

    /// Settles an authorized withdrawal: `process_withdrawal` for the slot
    /// and amount authorized, and on success the phase `Settled` with the new
    /// state. In any other phase nothing is settled and the error is
    /// `NotAuthorized`.
    pub fn settle(self, state: PoolState) -> (r: Result<(WithdrawalPhase, PoolState), LedgerError>)
        ensures
            match self {
                WithdrawalPhase::Authorized { idx, amount } => match r {
                    Ok((phase, after)) => phase == WithdrawalPhase::Settled && outcome_is(
                        Ok(after),
                        withdraw(state@, idx as int, amount as nat),
                    ),
                    Err(e) => outcome_is(Err(e), withdraw(state@, idx as int, amount as nat)),
                },
                _ => r == Err::<(WithdrawalPhase, PoolState), LedgerError>(
                    LedgerError::NotAuthorized,
                ),
            },
    {
        match self {
            WithdrawalPhase::Authorized { idx, amount } => {
                match process_withdrawal(state, idx, amount) {
                    Ok(after) => Ok((WithdrawalPhase::Settled, after)),
                    Err(e) => Err(e),
                }
            },
            _ => Err(LedgerError::NotAuthorized),
        }
    }
}

} // verus!
