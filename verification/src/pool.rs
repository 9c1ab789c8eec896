//! The public account of a pool: the sealed copy of the ledger, the version
//! that every request is made against, and the public counters. Requests to
//! the computation network are built here, one at a time for each pool, and
//! the network's answers are reconciled with the account here.

use crate::ledger::{InvestmentDecision, WithdrawalAuth, MAX_DEPOSITS};
use crate::request::{
    finish, list_arguments, new_builder, offset_for, offset_of_name, push_account,
    push_encrypted_u128, push_plaintext_u128, push_plaintext_u64, push_x25519_pubkey, Argument,
};
use arcium_client::idl::arcium::types::ArgumentList;
use vstd::array::spec_array_fill_for_copy_type;
use vstd::prelude::*;

verus! {

/// The address of an account or a program.
pub type Key = [u8; 32];

/// How many 32-byte elements the sealed ledger takes: four for each slot and
/// five for the pool's own numbers.
pub const ENCRYPTED_STATE_LEN: usize = 13;

/// Where the sealed ledger begins in the stored account: after the account
/// tag, the bump, the authority, the mint, the vault bump, the threshold, the
/// time of the last investment and the version.
pub const ENCRYPTED_STATE_OFFSET: u32 = 106;

/// How many bytes the sealed ledger takes in the stored account.
pub const ENCRYPTED_STATE_SIZE: u32 = 416;

/// The sealed ledger.
pub type EncryptedState = [[u8; 32]; ENCRYPTED_STATE_LEN];

/// The constants of the stored layout are what the layout gives.
pub proof fn lemma_sealed_layout()
    ensures
        ENCRYPTED_STATE_LEN == MAX_DEPOSITS * 4 + 5,
        ENCRYPTED_STATE_SIZE == ENCRYPTED_STATE_LEN * 32,
        ENCRYPTED_STATE_OFFSET == 8 + 1 + 32 + 32 + 1 + 8 + 8 + 16,
{
}

/// The computations that the network runs on a pool's ledger.
#[derive(Copy, Clone, Debug, PartialEq, Eq, Structural)]
pub enum Operation {
    InitPoolState,
    ProcessDeposit,
    CheckInvestmentNeeded,
    RecordInvestment,
    RecordYield,
    AuthorizeWithdrawal,
    ProcessWithdrawal,
}

impl Operation {
    /// The name under which the network knows the computation.
    pub open spec fn name(self) -> Seq<char> {
        match self {
            Operation::InitPoolState => "init_pool_state"@,
            Operation::ProcessDeposit => "process_deposit"@,
            Operation::CheckInvestmentNeeded => "check_investment_needed"@,
            Operation::RecordInvestment => "record_investment"@,
            Operation::RecordYield => "record_yield"@,
            Operation::AuthorizeWithdrawal => "authorize_withdrawal"@,
            Operation::ProcessWithdrawal => "process_withdrawal"@,
        }
    }

    /// The name under which the network knows the computation.
    pub fn circuit_name(self) -> (name: &'static str)
        ensures
            name@ == self.name(),
    {
        match self {
            Operation::InitPoolState => "init_pool_state",
            Operation::ProcessDeposit => "process_deposit",
            Operation::CheckInvestmentNeeded => "check_investment_needed",
            Operation::RecordInvestment => "record_investment",
            Operation::RecordYield => "record_yield",
            Operation::AuthorizeWithdrawal => "authorize_withdrawal",
            Operation::ProcessWithdrawal => "process_withdrawal",
        }
    }

    /// The offset under which the network files the computation's
    /// definition: that of its name.
    pub fn comp_def_offset(self) -> (offset: u32)
        ensures
            offset == offset_of_name(self.name()),
    {
        offset_for(self.circuit_name())
    }
}

/// The request that a pool is waiting on: which computation, and the version
/// of the sealed ledger that it was made against.
#[derive(Copy, Clone, Debug, PartialEq, Eq)]
pub struct InFlight {
    pub operation: Operation,
    pub version: u128,
}

/// Why a public action was refused.
#[derive(Copy, Clone, Debug, PartialEq, Eq)]
pub enum ErrorCode {
    /// The network's answer did not pass verification.
    AbortedComputation,
    /// The network found no position for the password, or too small a one.
    WithdrawalUnauthorized,
    /// There is nothing approved to invest.
    NoPendingInvestment,
    /// The caller is not the pool's authority.
    Unauthorized,
    /// The pool is still waiting on an earlier request, or on the outcome of
    /// a transfer that it has granted.
    RequestInFlight,
    /// The pool is not waiting on this answer: it waits on none, on another
    /// computation's, or on one made against another version.
    UnexpectedCallback,
    /// A public counter would leave its range.
    ArithmeticFault,
    /// The custody action that the pool asked for did not go through.
    CustodyFailed,
    /// An outcome was reported of a transfer that the pool has not granted.
    NoTransferGranted,
}

/// The public account of a pool.
#[derive(Copy, Clone, Debug, PartialEq, Eq)]
pub struct GhostPool {
    pub bump: u8,
    pub authority: Key,
    pub usdc_mint: Key,
    pub vault_bump: u8,
    pub investment_threshold: u64,
    pub last_investment_time: i64,
    /// The version of the sealed ledger.
    pub state_nonce: u128,
    pub encrypted_state: EncryptedState,
    pub total_deposits: u64,
    pub total_withdrawals: u64,
    pub total_invested: u64,
    /// What the network has approved for investment and is not yet invested.
    pub pending_investment_amount: u64,
    pub collateral_token_account: Key,
    pub total_collateral_received: u64,
    /// The request that the pool is waiting on, if any.
    pub in_flight: Option<InFlight>,
    /// The transfer that the pool has granted and not yet heard the outcome
    /// of, if any.
    pub granted: Option<WithdrawalGrant>,
}

/// An account that a callback may touch.
#[derive(Copy, Clone, Debug, PartialEq, Eq)]
pub struct CallbackAccount {
    pub pubkey: Key,
    pub is_writable: bool,
}

/// A request for the computation network: which computation, under which
/// offset, with which arguments, and which accounts its callback may touch.
pub struct ComputationRequest {
    pub operation: Operation,
    pub computation_offset: u64,
    pub args: ArgumentList,
    pub callback_accounts: Vec<CallbackAccount>,
}

/// A transfer of tokens for the custody program to make.
#[derive(Copy, Clone, Debug, PartialEq, Eq)]
pub struct TokenTransfer {
    pub from: Key,
    pub to: Key,
    pub authority: Key,
    pub amount: u64,
}

/// The accounts of `initialize_pool`, by what the pool keeps of them.
#[derive(Copy, Clone, Debug, PartialEq, Eq)]
pub struct InitializePool {
    pub authority: Key,
    pub ghost_pool: Key,
    pub ghost_pool_bump: u8,
    pub usdc_mint: Key,
    pub vault_bump: u8,
}

/// The accounts of `deposit`.
#[derive(Copy, Clone, Debug, PartialEq, Eq)]
pub struct Deposit {
    pub user: Key,
    pub ghost_pool: Key,
    pub user_usdc_token: Key,
    pub vault_usdc_token: Key,
}

/// The accounts of `check_and_invest`.
#[derive(Copy, Clone, Debug, PartialEq, Eq)]
pub struct CheckAndInvest {
    pub ghost_pool: Key,
}

/// The accounts of `withdraw`.
#[derive(Copy, Clone, Debug, PartialEq, Eq)]
pub struct Withdraw {
    pub ghost_pool: Key,
    pub vault: Key,
    pub user_token_account: Key,
    pub token_program: Key,
}

/// The accounts of `authorize_withdrawal_callback`.
#[derive(Copy, Clone, Debug, PartialEq, Eq)]
pub struct AuthorizeWithdrawalCallback {
    pub ghost_pool: Key,
    pub vault: Key,
    pub user_token_account: Key,
}

/// The sealed ledger of a pool before the network has answered: all zero.
pub open spec fn blank_state() -> EncryptedState {
    spec_array_fill_for_copy_type::<[u8; 32], ENCRYPTED_STATE_LEN>(no_key())
}

/// The key of all zero bytes, which stands for no account.
pub open spec fn no_key() -> Key {
    spec_array_fill_for_copy_type::<u8, 32>(0u8)
}

/// The blank ledger and the key for no account hold zero bytes only.
pub proof fn lemma_blank_is_zero()
    ensures
        forall|i: int| 0 <= i < 32 ==> no_key()[i] == 0,
        forall|i: int, j: int|
            0 <= i < ENCRYPTED_STATE_LEN && 0 <= j < 32 ==> blank_state()[i][j] == 0,
{
}

/// The account of a new pool, waiting on its first sealed ledger.
pub open spec fn new_pool(ctx: InitializePool, nonce: u128, investment_threshold: u64) -> GhostPool {
    GhostPool {
        bump: ctx.ghost_pool_bump,
        authority: ctx.authority,
        usdc_mint: ctx.usdc_mint,
        vault_bump: ctx.vault_bump,
        investment_threshold,
        last_investment_time: 0,
        state_nonce: nonce,
        encrypted_state: blank_state(),
        total_deposits: 0,
        total_withdrawals: 0,
        total_invested: 0,
        pending_investment_amount: 0,
        collateral_token_account: no_key(),
        total_collateral_received: 0,
        in_flight: Some(InFlight { operation: Operation::InitPoolState, version: nonce }),
        granted: None,
    }
}

/// Whether the pool is taken up: it waits on an answer of the network, or on
/// the outcome of a transfer that it has granted. A pool that is taken up
/// takes no new request.
pub open spec fn busy(pool: GhostPool) -> bool {
    pool.in_flight is Some || pool.granted is Some
}

/// The pool with `operation` requested against its current version.
pub open spec fn waiting_on(pool: GhostPool, operation: Operation) -> GhostPool {
    GhostPool { in_flight: Some(InFlight { operation, version: pool.state_nonce }), ..pool }
}

/// A reference to the sealed ledger inside the pool's stored account.
pub open spec fn sealed_ledger_of(pool_key: Key) -> Argument {
    Argument::Account {
        key: pool_key,
        offset: ENCRYPTED_STATE_OFFSET,
        length: ENCRYPTED_STATE_SIZE,
    }
}

/// Sets up a pool's account and asks the network for its first sealed ledger.
/// The account takes its keys and bumps from `ctx`, starts at version `nonce`
/// with a blank ledger and all counters at zero, and waits on the request.
/// The request passes the version as its only argument, and its callback may
/// write to the pool's account.
pub fn initialize_pool(
    ctx: &InitializePool,
    computation_offset: u64,
    nonce: u128,
    investment_threshold: u64,
) -> (r: (GhostPool, ComputationRequest))
    ensures
        r.0 == new_pool(*ctx, nonce, investment_threshold),
        r.1.operation == Operation::InitPoolState,
        r.1.computation_offset == computation_offset,
        list_arguments(r.1.args) == seq![Argument::PlaintextU128(nonce)],
        r.1.callback_accounts@ == seq![
            CallbackAccount { pubkey: ctx.ghost_pool, is_writable: true },
        ],
{
    let pool = GhostPool {
        bump: ctx.ghost_pool_bump,
        authority: ctx.authority,
        usdc_mint: ctx.usdc_mint,
        vault_bump: ctx.vault_bump,
        investment_threshold,
        last_investment_time: 0,
        state_nonce: nonce,
        encrypted_state: [[0u8; 32]; ENCRYPTED_STATE_LEN],
        total_deposits: 0,
        total_withdrawals: 0,
        total_invested: 0,
        pending_investment_amount: 0,
        collateral_token_account: [0u8; 32],
        total_collateral_received: 0,
        in_flight: Some(InFlight { operation: Operation::InitPoolState, version: nonce }),
        granted: None,
    };
    let args = finish(push_plaintext_u128(new_builder(), nonce));
    let mut callback_accounts: Vec<CallbackAccount> = Vec::new();
    callback_accounts.push(CallbackAccount { pubkey: ctx.ghost_pool, is_writable: true });
    proof {
        assert(list_arguments(args) =~= seq![Argument::PlaintextU128(nonce)]);
    }
    (
        pool,
        ComputationRequest {
            operation: Operation::InitPoolState,
            computation_offset,
            args,
            callback_accounts,
        },
    )
}

/// Whether two keys are the same.
fn same_key(a: &Key, b: &Key) -> (same: bool)
    ensures
        same == (*a == *b),
{
    let mut i: usize = 0;
    while i < 32
        invariant
            0 <= i <= 32,
            forall|j: int| 0 <= j < i ==> a[j] == b[j],
        decreases 32 - i,
    {
        if a[i] != b[i] {
            return false;
        }
        i += 1;
    }
    assert(*a =~= *b);
    true
}

/// Whether the pool waits on an answer to `operation`, requested against the
/// pool's current version.
pub open spec fn awaits(pool: GhostPool, operation: Operation) -> bool {
    pool.in_flight == Some(InFlight { operation, version: pool.state_nonce })
}

/// Whether the pool waits on an answer to `operation`.
fn is_awaiting(pool: &GhostPool, operation: Operation) -> (waiting: bool)
    ensures
        waiting == awaits(*pool, operation),
{
    match pool.in_flight {
        Some(ticket) => ticket.operation == operation && ticket.version == pool.state_nonce,
        None => false,
    }
}

/// The arguments of a request that carries a password hash: the key and nonce
/// under which the hash was sealed, the sealed hash, the amount in the clear,
/// and the pool's version with a reference to its sealed ledger.
pub open spec fn password_arguments(
    pool_key: Key,
    version: u128,
    amount: u64,
    encrypted_password_hash: [u8; 32],
    user_pubkey: [u8; 32],
    nonce: u128,
) -> Seq<Argument> {
    seq![
        Argument::X25519Pubkey(user_pubkey),
        Argument::PlaintextU128(nonce),
        Argument::EncryptedU128(encrypted_password_hash),
        Argument::PlaintextU64(amount),
        Argument::PlaintextU128(version),
        sealed_ledger_of(pool_key),
    ]
}

/// The argument list of a request that carries a password hash.
fn password_args(
    pool_key: Key,
    version: u128,
    amount: u64,
    encrypted_password_hash: [u8; 32],
    user_pubkey: [u8; 32],
    nonce: u128,
) -> (args: ArgumentList)
    ensures
        list_arguments(args) == password_arguments(
            pool_key,
            version,
            amount,
            encrypted_password_hash,
            user_pubkey,
            nonce,
        ),
{
    let builder = new_builder();
    let builder = push_x25519_pubkey(builder, user_pubkey);
    let builder = push_plaintext_u128(builder, nonce);
    let builder = push_encrypted_u128(builder, encrypted_password_hash);
    let builder = push_plaintext_u64(builder, amount);
    let builder = push_plaintext_u128(builder, version);
    let builder = push_account(builder, pool_key, ENCRYPTED_STATE_OFFSET, ENCRYPTED_STATE_SIZE);
    let args = finish(builder);
    proof {
        assert(list_arguments(args) =~= password_arguments(
            pool_key,
            version,
            amount,
            encrypted_password_hash,
            user_pubkey,
            nonce,
        ));
    }
    args
}

/// What a deposit asks of the outside: the tokens to move into the vault, and
/// the computation that enters the deposit in the ledger.
pub struct DepositPlan {
    pub transfer: TokenTransfer,
    pub request: ComputationRequest,
}

/// Takes a deposit of `amount`. A pool that is taken up with an earlier request
/// refuses it, before any funds move, and stays as it is. Otherwise the pool
/// waits on the deposit's computation, and the plan names the transfer of
/// `amount` from the user's tokens to the vault under the user's authority
/// and the request, whose callback may write to the pool's account.
pub fn deposit(
    pool: &mut GhostPool,
    ctx: &Deposit,
    computation_offset: u64,
    amount: u64,
    encrypted_password_hash: [u8; 32],
    user_pubkey: [u8; 32],
    nonce: u128,
) -> (r: Result<DepositPlan, ErrorCode>)
    ensures
        busy(*old(pool)) ==> r is Err && r->Err_0 == ErrorCode::RequestInFlight && *final(pool)
            == *old(pool),
        !busy(*old(pool)) ==> r is Ok && *final(pool) == waiting_on(
            *old(pool),
            Operation::ProcessDeposit,
        ),
        r matches Ok(plan) ==> {
            &&& plan.transfer == (TokenTransfer {
                from: ctx.user_usdc_token,
                to: ctx.vault_usdc_token,
                authority: ctx.user,
                amount,
            })
            &&& plan.request.operation == Operation::ProcessDeposit
            &&& plan.request.computation_offset == computation_offset
            &&& list_arguments(plan.request.args) == password_arguments(
                ctx.ghost_pool,
                old(pool).state_nonce,
                amount,
                encrypted_password_hash,
                user_pubkey,
                nonce,
            )
            &&& plan.request.callback_accounts@ == seq![
                CallbackAccount { pubkey: ctx.ghost_pool, is_writable: true },
            ]
        },
{
    if pool.in_flight.is_some() || pool.granted.is_some() {
        return Err(ErrorCode::RequestInFlight);
    }
    let transfer = TokenTransfer {
        from: ctx.user_usdc_token,
        to: ctx.vault_usdc_token,
        authority: ctx.user,
        amount,
    };
    let args = password_args(
        ctx.ghost_pool,
        pool.state_nonce,
        amount,
        encrypted_password_hash,
        user_pubkey,
        nonce,
    );
    let mut callback_accounts: Vec<CallbackAccount> = Vec::new();
    callback_accounts.push(CallbackAccount { pubkey: ctx.ghost_pool, is_writable: true });
    pool.in_flight = Some(
        InFlight { operation: Operation::ProcessDeposit, version: pool.state_nonce },
    );
    Ok(
        DepositPlan {
            transfer,
            request: ComputationRequest {
                operation: Operation::ProcessDeposit,
                computation_offset,
                args,
                callback_accounts,
            },
        },
    )
}

/// The arguments of an investment check: the pool's version with a reference
/// to its sealed ledger, and the threshold.
pub open spec fn investment_check_arguments(pool_key: Key, version: u128, threshold: u64) -> Seq<
    Argument,
> {
    seq![
        Argument::PlaintextU128(version),
        sealed_ledger_of(pool_key),
        Argument::PlaintextU64(threshold),
    ]
}

/// Asks the network whether the pending deposits have reached the pool's
/// investment threshold. A pool that is taken up with an earlier request
/// refuses and stays as it is. Otherwise the pool waits on the check, whose callback
/// may write to the pool's account.
pub fn check_and_invest(pool: &mut GhostPool, ctx: &CheckAndInvest, computation_offset: u64) -> (r:
    Result<ComputationRequest, ErrorCode>)
    ensures
        busy(*old(pool)) ==> r is Err && r->Err_0 == ErrorCode::RequestInFlight && *final(pool)
            == *old(pool),
        !busy(*old(pool)) ==> r is Ok && *final(pool) == waiting_on(
            *old(pool),
            Operation::CheckInvestmentNeeded,
        ),
        r matches Ok(request) ==> {
            &&& request.operation == Operation::CheckInvestmentNeeded
            &&& request.computation_offset == computation_offset
            &&& list_arguments(request.args) == investment_check_arguments(
                ctx.ghost_pool,
                old(pool).state_nonce,
                old(pool).investment_threshold,
            )
            &&& request.callback_accounts@ == seq![
                CallbackAccount { pubkey: ctx.ghost_pool, is_writable: true },
            ]
        },
{
    if pool.in_flight.is_some() || pool.granted.is_some() {
        return Err(ErrorCode::RequestInFlight);
    }
    let threshold = pool.investment_threshold;
    let builder = new_builder();
    let builder = push_plaintext_u128(builder, pool.state_nonce);
    let builder = push_account(
        builder,
        ctx.ghost_pool,
        ENCRYPTED_STATE_OFFSET,
        ENCRYPTED_STATE_SIZE,
    );
    let builder = push_plaintext_u64(builder, threshold);
    let args = finish(builder);
    proof {
        assert(list_arguments(args) =~= investment_check_arguments(
            ctx.ghost_pool,
            pool.state_nonce,
            threshold,
        ));
    }
    let mut callback_accounts: Vec<CallbackAccount> = Vec::new();
    callback_accounts.push(CallbackAccount { pubkey: ctx.ghost_pool, is_writable: true });
    pool.in_flight = Some(
        InFlight { operation: Operation::CheckInvestmentNeeded, version: pool.state_nonce },
    );
    Ok(
        ComputationRequest {
            operation: Operation::CheckInvestmentNeeded,
            computation_offset,
            args,
            callback_accounts,
        },
    )
}

/// The accounts that the callback of a withdrawal check may touch: the pool,
/// the vault and the user's tokens for writing, the token program for
/// reading.
pub open spec fn withdrawal_callback_accounts(ctx: Withdraw) -> Seq<CallbackAccount> {
    seq![
        CallbackAccount { pubkey: ctx.ghost_pool, is_writable: true },
        CallbackAccount { pubkey: ctx.vault, is_writable: true },
        CallbackAccount { pubkey: ctx.user_token_account, is_writable: true },
        CallbackAccount { pubkey: ctx.token_program, is_writable: false },
    ]
}

/// Asks the network to check a withdrawal of `amount` against the password.
/// A pool that is taken up with an earlier request refuses and stays as it
/// is. Otherwise the pool waits on the check. No funds move before the
/// answer.
pub fn withdraw(
    pool: &mut GhostPool,
    ctx: &Withdraw,
    computation_offset: u64,
    amount: u64,
    encrypted_password_hash: [u8; 32],
    user_pubkey: [u8; 32],
    nonce: u128,
) -> (r: Result<ComputationRequest, ErrorCode>)
    ensures
        busy(*old(pool)) ==> r is Err && r->Err_0 == ErrorCode::RequestInFlight && *final(pool)
            == *old(pool),
        !busy(*old(pool)) ==> r is Ok && *final(pool) == waiting_on(
            *old(pool),
            Operation::AuthorizeWithdrawal,
        ),
        r matches Ok(request) ==> {
            &&& request.operation == Operation::AuthorizeWithdrawal
            &&& request.computation_offset == computation_offset
            &&& list_arguments(request.args) == password_arguments(
                ctx.ghost_pool,
                old(pool).state_nonce,
                amount,
                encrypted_password_hash,
                user_pubkey,
                nonce,
            )
            &&& request.callback_accounts@ == withdrawal_callback_accounts(*ctx)
        },
{
    if pool.in_flight.is_some() || pool.granted.is_some() {
        return Err(ErrorCode::RequestInFlight);
    }
    let args = password_args(
        ctx.ghost_pool,
        pool.state_nonce,
        amount,
        encrypted_password_hash,
        user_pubkey,
        nonce,
    );
    let mut callback_accounts: Vec<CallbackAccount> = Vec::new();
    callback_accounts.push(CallbackAccount { pubkey: ctx.ghost_pool, is_writable: true });
    callback_accounts.push(CallbackAccount { pubkey: ctx.vault, is_writable: true });
    callback_accounts.push(CallbackAccount { pubkey: ctx.user_token_account, is_writable: true });
    callback_accounts.push(CallbackAccount { pubkey: ctx.token_program, is_writable: false });
    proof {
        assert(callback_accounts@ =~= withdrawal_callback_accounts(*ctx));
    }
    pool.in_flight = Some(
        InFlight { operation: Operation::AuthorizeWithdrawal, version: pool.state_nonce },
    );
    Ok(
        ComputationRequest {
            operation: Operation::AuthorizeWithdrawal,
            computation_offset,
            args,
            callback_accounts,
        },
    )
}

/// The version after `version`: one more, and zero after the last.
pub open spec fn next_version(version: u128) -> u128 {
    if version == u128::MAX {
        0
    } else {
        (version + 1) as u128
    }
}

/// The pool, no longer waiting.
pub open spec fn released(pool: GhostPool) -> GhostPool {
    GhostPool { in_flight: None, ..pool }
}

/// The pool with a new sealed ledger: the ledger stored, the version moved on
/// by one, and the request answered.
pub open spec fn resealed(pool: GhostPool, state: EncryptedState) -> GhostPool {
    GhostPool {
        encrypted_state: state,
        state_nonce: next_version(pool.state_nonce),
        in_flight: None,
        ..pool
    }
}

/// What an answer that failed verification comes to: the computation is
/// aborted, and a pool that was waiting on it waits no longer. Nothing else
/// changes.
pub open spec fn aborted(pool: GhostPool, operation: Operation) -> GhostPool {
    if awaits(pool, operation) {
        released(pool)
    } else {
        pool
    }
}

/// The pool and the result after the network's answer to the first request
/// of a pool's life.
pub open spec fn after_init_answer(pool: GhostPool, output: Option<EncryptedState>) -> (
    GhostPool,
    Result<(), ErrorCode>,
) {
    match output {
        None => (aborted(pool, Operation::InitPoolState), Err(ErrorCode::AbortedComputation)),
        Some(state) => if !awaits(pool, Operation::InitPoolState) {
            (pool, Err(ErrorCode::UnexpectedCallback))
        } else {
            (resealed(pool, state), Ok(()))
        },
    }
}

/// The pool and the result after the network's answer to a deposit.
pub open spec fn after_deposit_answer(pool: GhostPool, output: Option<EncryptedState>) -> (
    GhostPool,
    Result<(), ErrorCode>,
) {
    match output {
        None => (aborted(pool, Operation::ProcessDeposit), Err(ErrorCode::AbortedComputation)),
        Some(state) => if !awaits(pool, Operation::ProcessDeposit) {
            (pool, Err(ErrorCode::UnexpectedCallback))
        } else if pool.total_deposits == u64::MAX {
            (pool, Err(ErrorCode::ArithmeticFault))
        } else {
            (
                GhostPool {
                    total_deposits: (pool.total_deposits + 1) as u64,
                    ..resealed(pool, state)
                },
                Ok(()),
            )
        },
    }
}

/// The pool and the result after the network's answer to an investment
/// check: the amount approved, if any.
pub open spec fn after_investment_answer(pool: GhostPool, output: Option<InvestmentDecision>) -> (
    GhostPool,
    Result<Option<u64>, ErrorCode>,
) {
    match output {
        None => (
            aborted(pool, Operation::CheckInvestmentNeeded),
            Err(ErrorCode::AbortedComputation),
        ),
        Some(decision) => if !awaits(pool, Operation::CheckInvestmentNeeded) {
            (pool, Err(ErrorCode::UnexpectedCallback))
        } else if decision.should_invest {
            (
                GhostPool {
                    pending_investment_amount: decision.amount_to_invest,
                    ..released(pool)
                },
                Ok(Some(decision.amount_to_invest)),
            )
        } else {
            (released(pool), Ok(None))
        },
    }
}

/// What an authorized withdrawal asks of the outside: the tokens to move out
/// of the vault, and the slot that the withdrawal is to be settled at.
#[derive(Copy, Clone, Debug, PartialEq, Eq)]
pub struct WithdrawalGrant {
    pub transfer: TokenTransfer,
    pub idx: u8,
}

/// What an authorization grants: the transfer of the amount revealed from the
/// vault to the user's tokens, under the pool's authority.
pub open spec fn granted_by(ctx: AuthorizeWithdrawalCallback, auth: WithdrawalAuth) -> WithdrawalGrant {
    WithdrawalGrant {
        transfer: TokenTransfer {
            from: ctx.vault,
            to: ctx.user_token_account,
            authority: ctx.ghost_pool,
            amount: auth.amount,
        },
        idx: auth.found_idx,
    }
}

/// The pool and the result after the network's answer to a withdrawal check.
pub open spec fn after_withdrawal_answer(
    pool: GhostPool,
    ctx: AuthorizeWithdrawalCallback,
    output: Option<WithdrawalAuth>,
) -> (GhostPool, Result<WithdrawalGrant, ErrorCode>) {
    match output {
        None => (
            aborted(pool, Operation::AuthorizeWithdrawal),
            Err(ErrorCode::AbortedComputation),
        ),
        Some(auth) => if !awaits(pool, Operation::AuthorizeWithdrawal) {
            (pool, Err(ErrorCode::UnexpectedCallback))
        } else if !auth.authorized {
            (released(pool), Err(ErrorCode::WithdrawalUnauthorized))
        } else {
            (
                GhostPool { granted: Some(granted_by(ctx, auth)), ..released(pool) },
                Ok(granted_by(ctx, auth)),
            )
        },
    }
}

/// Reconciles the pool with the network's answer to its first request.
/// `output` is the sealed ledger that passed verification, or `None` where
/// verification failed. A verified ledger that the pool is waiting for is
/// stored and the version moves on by one; one that it is not waiting for is
/// refused and changes nothing. A failed verification aborts the computation
/// and leaves ledger and version as they were.
pub fn init_pool_state_callback(pool: &mut GhostPool, output: Option<EncryptedState>) -> (r:
    Result<(), ErrorCode>)
    ensures
        (*final(pool), r) == after_init_answer(*old(pool), output),
{
    let waiting = is_awaiting(pool, Operation::InitPoolState);
    match output {
        None => {
            if waiting {
                pool.in_flight = None;
            }
            Err(ErrorCode::AbortedComputation)
        },
        Some(state) => {
            if !waiting {
                return Err(ErrorCode::UnexpectedCallback);
            }
            pool.encrypted_state = state;
            pool.state_nonce = pool.state_nonce.wrapping_add(1);
            pool.in_flight = None;
            Ok(())
        },
    }
}

/// Reconciles the pool with the network's answer to a deposit, as
/// `init_pool_state_callback` does, and counts the deposit.
pub fn process_deposit_callback(pool: &mut GhostPool, output: Option<EncryptedState>) -> (r:
    Result<(), ErrorCode>)
    ensures
        (*final(pool), r) == after_deposit_answer(*old(pool), output),
{
    let waiting = is_awaiting(pool, Operation::ProcessDeposit);
    match output {
        None => {
            if waiting {
                pool.in_flight = None;
            }
            Err(ErrorCode::AbortedComputation)
        },
        Some(state) => {
            if !waiting {
                return Err(ErrorCode::UnexpectedCallback);
            }
            if pool.total_deposits == u64::MAX {
                return Err(ErrorCode::ArithmeticFault);
            }
            pool.encrypted_state = state;
            pool.state_nonce = pool.state_nonce.wrapping_add(1);
            pool.total_deposits = pool.total_deposits + 1;
            pool.in_flight = None;
            Ok(())
        },
    }
}

/// Reconciles the pool with the network's answer to an investment check.
/// Where the network says to invest, the amount that it reveals is stored as
/// pending investment, for `invest_in_kamino` to carry out, and returned;
/// where it says not to, nothing is stored. Ledger and version stay as they
/// were.
pub fn check_investment_needed_callback(
    pool: &mut GhostPool,
    output: Option<InvestmentDecision>,
) -> (r: Result<Option<u64>, ErrorCode>)
    ensures
        (*final(pool), r) == after_investment_answer(*old(pool), output),
{
    let waiting = is_awaiting(pool, Operation::CheckInvestmentNeeded);
    match output {
        None => {
            if waiting {
                pool.in_flight = None;
            }
            Err(ErrorCode::AbortedComputation)
        },
        Some(decision) => {
            if !waiting {
                return Err(ErrorCode::UnexpectedCallback);
            }
            pool.in_flight = None;
            if decision.should_invest {
                pool.pending_investment_amount = decision.amount_to_invest;
                Ok(Some(decision.amount_to_invest))
            } else {
                Ok(None)
            }
        },
    }
}

/// Reconciles the pool with the network's answer to a withdrawal check. An
/// authorization grants the transfer of the amount revealed from the vault to
/// the user's tokens under the pool's authority; the pool keeps the grant
/// until `record_transfer_outcome` hears how the transfer went, and counts
/// nothing yet. A refusal is an error, with no transfer. Ledger and version
/// stay as they were.
pub fn authorize_withdrawal_callback(
    pool: &mut GhostPool,
    ctx: &AuthorizeWithdrawalCallback,
    output: Option<WithdrawalAuth>,
) -> (r: Result<WithdrawalGrant, ErrorCode>)
    ensures
        (*final(pool), r) == after_withdrawal_answer(*old(pool), *ctx, output),
{
    let waiting = is_awaiting(pool, Operation::AuthorizeWithdrawal);
    match output {
        None => {
            if waiting {
                pool.in_flight = None;
            }
            Err(ErrorCode::AbortedComputation)
        },
        Some(auth) => {
            if !waiting {
                return Err(ErrorCode::UnexpectedCallback);
            }
            pool.in_flight = None;
            if !auth.authorized {
                return Err(ErrorCode::WithdrawalUnauthorized);
            }
            let grant = WithdrawalGrant {
                transfer: TokenTransfer {
                    from: ctx.vault,
                    to: ctx.user_token_account,
                    authority: ctx.ghost_pool,
                    amount: auth.amount,
                },
                idx: auth.found_idx,
            };
            pool.granted = Some(grant);
            Ok(grant)
        },
    }
}

/// The pool and the result after the outcome of the transfer that the pool
/// has granted. A transfer that went through is counted. One that failed is
/// not, and the grant is void. Either way the pool is free again.
pub open spec fn after_transfer_outcome(pool: GhostPool, succeeded: bool) -> (
    GhostPool,
    Result<WithdrawalGrant, ErrorCode>,
) {
    match pool.granted {
        None => (pool, Err(ErrorCode::NoTransferGranted)),
        Some(grant) => if !succeeded {
            (GhostPool { granted: None, ..pool }, Err(ErrorCode::CustodyFailed))
        } else if pool.total_withdrawals == u64::MAX {
            (pool, Err(ErrorCode::ArithmeticFault))
        } else {
            (
                GhostPool {
                    total_withdrawals: (pool.total_withdrawals + 1) as u64,
                    granted: None,
                    ..pool
                },
                Ok(grant),
            )
        },
    }
}

/// Takes the outcome of the transfer that `authorize_withdrawal_callback`
/// granted. The withdrawal counter moves by one where the transfer went
/// through, and only there; a transfer that failed voids the grant and counts
/// nothing. A pool that has granted none refuses and stays as it is.
pub fn record_transfer_outcome(pool: &mut GhostPool, succeeded: bool) -> (r: Result<
    WithdrawalGrant,
    ErrorCode,
>)
    ensures
        (*final(pool), r) == after_transfer_outcome(*old(pool), succeeded),
{
    match pool.granted {
        None => Err(ErrorCode::NoTransferGranted),
        Some(grant) => {
            if !succeeded {
                pool.granted = None;
                return Err(ErrorCode::CustodyFailed);
            }
            if pool.total_withdrawals == u64::MAX {
                return Err(ErrorCode::ArithmeticFault);
            }
            pool.total_withdrawals = pool.total_withdrawals + 1;
            pool.granted = None;
            Ok(grant)
        },
    }
}

/// The lending program that pool funds are invested with.
pub const KAMINO_LENDING_PROGRAM_ID: Key = [
    149, 108, 26, 73, 65, 255, 220, 44, 157, 41, 23, 226, 103, 53, 148, 239, 153, 242, 153, 153,
    151, 145, 138, 61, 67, 49, 120, 57, 61, 135, 124, 207,
];

/// The tag of the lending program's instruction that deposits liquidity into
/// a reserve.
pub const DEPOSIT_RESERVE_LIQUIDITY: [u8; 8] = [0xa9, 0xc9, 0x1e, 0x7e, 0x06, 0xcd, 0x66, 0x44];

/// An account of an instruction, and how the instruction uses it.
#[derive(Copy, Clone, Debug, PartialEq, Eq)]
pub struct AccountMeta {
    pub pubkey: Key,
    pub is_signer: bool,
    pub is_writable: bool,
}

/// An instruction for another program.
#[derive(Clone, Debug, PartialEq, Eq)]
pub struct Instruction {
    pub program_id: Key,
    pub accounts: Vec<AccountMeta>,
    pub data: Vec<u8>,
}

/// The accounts of `invest_in_kamino`.
#[derive(Copy, Clone, Debug, PartialEq, Eq)]
pub struct InvestInKamino {
    pub authority: Key,
    pub vault: Key,
    pub kamino_lending_market: Key,
    pub kamino_lending_market_authority: Key,
    pub kamino_reserve: Key,
    pub reserve_liquidity_mint: Key,
    pub reserve_collateral_mint: Key,
    pub reserve_liquidity_supply: Key,
    pub user_destination_collateral: Key,
    pub token_program: Key,
}

/// The accounts of `set_collateral_account`.
#[derive(Copy, Clone, Debug, PartialEq, Eq)]
pub struct SetCollateralAccount {
    pub authority: Key,
    pub collateral_token_account: Key,
}

/// An account that the instruction writes to.
pub open spec fn writable(pubkey: Key, is_signer: bool) -> AccountMeta {
    AccountMeta { pubkey, is_signer, is_writable: true }
}

/// An account that the instruction only reads.
pub open spec fn readonly(pubkey: Key, is_signer: bool) -> AccountMeta {
    AccountMeta { pubkey, is_signer, is_writable: false }
}

/// The accounts of the lending program's deposit, in its order: the vault as
/// the signing owner, the market and its authority, the reserve, the two
/// mints, the reserve's supply, the vault again as the source of liquidity,
/// the destination of the collateral, and the token program.
pub open spec fn kamino_deposit_accounts(ctx: InvestInKamino) -> Seq<AccountMeta> {
    seq![
        writable(ctx.vault, true),
        readonly(ctx.kamino_lending_market, false),
        readonly(ctx.kamino_lending_market_authority, false),
        writable(ctx.kamino_reserve, false),
        readonly(ctx.reserve_liquidity_mint, false),
        writable(ctx.reserve_collateral_mint, false),
        writable(ctx.reserve_liquidity_supply, false),
        writable(ctx.vault, false),
        writable(ctx.user_destination_collateral, false),
        readonly(ctx.token_program, false),
    ]
}

/// The `count` low bytes of `value`, lowest first.
pub open spec fn le_bytes(value: nat, count: nat) -> Seq<u8>
    decreases count,
{
    if count == 0 {
        Seq::empty()
    } else {
        seq![(value % 256) as u8] + le_bytes(value / 256, (count - 1) as nat)
    }
}

/// The data of the lending program's deposit: its tag, then the amount in
/// eight bytes, lowest first.
pub open spec fn kamino_deposit_data(amount: u64) -> Seq<u8> {
    DEPOSIT_RESERVE_LIQUIDITY@ + le_bytes(amount as nat, 8)
}

/// The pool after its pending investment was made at the time `now`.
pub open spec fn invested(pool: GhostPool, collateral: Key, now: i64) -> GhostPool {
    GhostPool {
        total_invested: (pool.total_invested + pool.pending_investment_amount) as u64,
        pending_investment_amount: 0,
        last_investment_time: now,
        collateral_token_account: collateral,
        ..pool
    }
}

/// Why the pending investment cannot be carried out, if anything stands
/// against it: the caller is not the pool's authority, nothing is pending, or
/// the invested total would leave its range.
pub open spec fn investment_refusal(pool: GhostPool, ctx: InvestInKamino) -> Option<ErrorCode> {
    if ctx.authority != pool.authority {
        Some(ErrorCode::Unauthorized)
    } else if pool.pending_investment_amount == 0 {
        Some(ErrorCode::NoPendingInvestment)
    } else if pool.total_invested + pool.pending_investment_amount > u64::MAX {
        Some(ErrorCode::ArithmeticFault)
    } else {
        None
    }
}

/// Plans the investment that the network approved. Only the pool's authority
/// may ask, and only while an amount is pending that the invested total has
/// room for. The instruction returned deposits the pending amount with the
/// lending program, for the vault to sign. The pool is not changed:
/// `record_investment_outcome` moves the amount once the deposit is made.
pub fn invest_in_kamino(pool: &GhostPool, ctx: &InvestInKamino) -> (r: Result<
    Instruction,
    ErrorCode,
>)
    ensures
        match investment_refusal(*pool, *ctx) {
            Some(e) => r is Err && r->Err_0 == e,
            None => r is Ok,
        },
        r matches Ok(instruction) ==> {
            &&& instruction.program_id == KAMINO_LENDING_PROGRAM_ID
            &&& instruction.accounts@ == kamino_deposit_accounts(*ctx)
            &&& instruction.data@ == kamino_deposit_data(pool.pending_investment_amount)
        },
{
    if !same_key(&ctx.authority, &pool.authority) {
        return Err(ErrorCode::Unauthorized);
    }
    let amount = pool.pending_investment_amount;
    if amount == 0 {
        return Err(ErrorCode::NoPendingInvestment);
    }
    if pool.total_invested.checked_add(amount).is_none() {
        return Err(ErrorCode::ArithmeticFault);
    }
    let mut data: Vec<u8> = Vec::new();
    let mut i: usize = 0;
    while i < 8
        invariant
            0 <= i <= 8,
            data@ == DEPOSIT_RESERVE_LIQUIDITY@.take(i as int),
        decreases 8 - i,
    {
        data.push(DEPOSIT_RESERVE_LIQUIDITY[i]);
        assert(data@ =~= DEPOSIT_RESERVE_LIQUIDITY@.take(i + 1));
        i += 1;
    }
    assert(data@ =~= DEPOSIT_RESERVE_LIQUIDITY@);
    let mut rest: u64 = amount;
    let mut k: usize = 0;
    while k < 8
        invariant
            0 <= k <= 8,
            data@ + le_bytes(rest as nat, (8 - k) as nat) == kamino_deposit_data(amount),
        decreases 8 - k,
    {
        let ghost before = data@;
        data.push((rest % 256) as u8);
        assert(before + le_bytes(rest as nat, (8 - k) as nat) =~= data@ + le_bytes(
            (rest / 256) as nat,
            (8 - k - 1) as nat,
        ));
        rest = rest / 256;
        k += 1;
    }
    assert(data@ + le_bytes(rest as nat, 0) =~= data@);
    let mut accounts: Vec<AccountMeta> = Vec::new();
    accounts.push(AccountMeta { pubkey: ctx.vault, is_signer: true, is_writable: true });
    accounts.push(
        AccountMeta { pubkey: ctx.kamino_lending_market, is_signer: false, is_writable: false },
    );
    accounts.push(
        AccountMeta {
            pubkey: ctx.kamino_lending_market_authority,
            is_signer: false,
            is_writable: false,
        },
    );
    accounts.push(AccountMeta { pubkey: ctx.kamino_reserve, is_signer: false, is_writable: true });
    accounts.push(
        AccountMeta { pubkey: ctx.reserve_liquidity_mint, is_signer: false, is_writable: false },
    );
    accounts.push(
        AccountMeta { pubkey: ctx.reserve_collateral_mint, is_signer: false, is_writable: true },
    );
    accounts.push(
        AccountMeta { pubkey: ctx.reserve_liquidity_supply, is_signer: false, is_writable: true },
    );
    accounts.push(AccountMeta { pubkey: ctx.vault, is_signer: false, is_writable: true });
    accounts.push(
        AccountMeta {
            pubkey: ctx.user_destination_collateral,
            is_signer: false,
            is_writable: true,
        },
    );
    accounts.push(AccountMeta { pubkey: ctx.token_program, is_signer: false, is_writable: false });
    assert(accounts@ =~= kamino_deposit_accounts(*ctx));
    Ok(Instruction { program_id: KAMINO_LENDING_PROGRAM_ID, accounts, data })
}

/// The pool and the result after the outcome of the lending deposit that
/// `invest_in_kamino` planned: the amount invested, where the deposit went
/// through.
pub open spec fn after_investment_outcome(
    pool: GhostPool,
    ctx: InvestInKamino,
    now: i64,
    succeeded: bool,
) -> (GhostPool, Result<u64, ErrorCode>) {
    match investment_refusal(pool, ctx) {
        Some(e) => (pool, Err(e)),
        None => if !succeeded {
            (pool, Err(ErrorCode::CustodyFailed))
        } else {
            (
                invested(pool, ctx.user_destination_collateral, now),
                Ok(pool.pending_investment_amount),
            )
        },
    }
}

/// Takes the outcome of the lending deposit that `invest_in_kamino` planned,
/// at the time `now`. Where the deposit went through, and only there, the
/// pending amount moves to the invested total and is cleared, and the time
/// and the collateral account are noted. A deposit that failed, and a report
/// that `invest_in_kamino` would have refused to plan for, leave the pool as
/// it is, with the amount still pending.
pub fn record_investment_outcome(
    pool: &mut GhostPool,
    ctx: &InvestInKamino,
    now: i64,
    succeeded: bool,
) -> (r: Result<u64, ErrorCode>)
    ensures
        (*final(pool), r) == after_investment_outcome(*old(pool), *ctx, now, succeeded),
{
    if !same_key(&ctx.authority, &pool.authority) {
        return Err(ErrorCode::Unauthorized);
    }
    let amount = pool.pending_investment_amount;
    if amount == 0 {
        return Err(ErrorCode::NoPendingInvestment);
    }
    let total_invested = match pool.total_invested.checked_add(amount) {
        Some(v) => v,
        None => {
            return Err(ErrorCode::ArithmeticFault);
        },
    };
    if !succeeded {
        return Err(ErrorCode::CustodyFailed);
    }
    pool.total_invested = total_invested;
    pool.pending_investment_amount = 0;
    pool.last_investment_time = now;
    pool.collateral_token_account = ctx.user_destination_collateral;
    Ok(amount)
}

/// Notes the account that receives the lending program's collateral. Only
/// the pool's authority may ask; anyone else is refused and the pool stays as
/// it is.
pub fn set_collateral_account(pool: &mut GhostPool, ctx: &SetCollateralAccount) -> (r: Result<
    (),
    ErrorCode,
>)
    ensures
        ctx.authority == old(pool).authority ==> r is Ok && *final(pool) == (GhostPool {
            collateral_token_account: ctx.collateral_token_account,
            ..*old(pool)
        }),
        ctx.authority != old(pool).authority ==> r is Err && r->Err_0 == ErrorCode::Unauthorized
            && *final(pool) == *old(pool),
{
    if !same_key(&ctx.authority, &pool.authority) {
        return Err(ErrorCode::Unauthorized);
    }
    pool.collateral_token_account = ctx.collateral_token_account;
    Ok(())
}

/// An accepted sealed ledger moves the version on by exactly one: to the
/// next version always, which is one more wherever the version is not the
/// last that its field can hold, and which is never the version before.
pub proof fn lemma_version_moves_by_one(pool: GhostPool, state: EncryptedState)
    ensures
        after_init_answer(pool, Some(state)).1 is Ok ==> after_init_answer(
            pool,
            Some(state),
        ).0.state_nonce == next_version(pool.state_nonce),
        after_deposit_answer(pool, Some(state)).1 is Ok ==> after_deposit_answer(
            pool,
            Some(state),
        ).0.state_nonce == next_version(pool.state_nonce),
        pool.state_nonce < u128::MAX ==> next_version(pool.state_nonce) == pool.state_nonce + 1,
        next_version(pool.state_nonce) != pool.state_nonce,
{
}

/// Whatever is not an accepted sealed ledger leaves version and sealed
/// ledger as they were: a refused answer, a failed verification, and every
/// answer that reveals a value.
pub proof fn lemma_version_moves_only_with_the_ledger(
    pool: GhostPool,
    ctx: AuthorizeWithdrawalCallback,
    sealed: Option<EncryptedState>,
    decision: Option<InvestmentDecision>,
    auth: Option<WithdrawalAuth>,
)
    ensures
        after_init_answer(pool, sealed).1 is Err ==> after_init_answer(pool, sealed).0.state_nonce
            == pool.state_nonce && after_init_answer(pool, sealed).0.encrypted_state
            == pool.encrypted_state,
        after_deposit_answer(pool, sealed).1 is Err ==> after_deposit_answer(
            pool,
            sealed,
        ).0.state_nonce == pool.state_nonce && after_deposit_answer(pool, sealed).0.encrypted_state
            == pool.encrypted_state,
        after_investment_answer(pool, decision).0.state_nonce == pool.state_nonce,
        after_investment_answer(pool, decision).0.encrypted_state == pool.encrypted_state,
        after_withdrawal_answer(pool, ctx, auth).0.state_nonce == pool.state_nonce,
        after_withdrawal_answer(pool, ctx, auth).0.encrypted_state == pool.encrypted_state,
{
}

/// An answer is applied once. A pool that waits on nothing, as every pool
/// does that has just accepted an answer, refuses every answer and is left
/// as it is by each.
pub proof fn lemma_answers_apply_once(
    pool: GhostPool,
    ctx: AuthorizeWithdrawalCallback,
    sealed: Option<EncryptedState>,
    decision: Option<InvestmentDecision>,
    auth: Option<WithdrawalAuth>,
)
    ensures
        after_init_answer(pool, sealed).1 is Ok ==> after_init_answer(pool, sealed).0.in_flight
            is None,
        after_deposit_answer(pool, sealed).1 is Ok ==> after_deposit_answer(pool, sealed).0.in_flight
            is None,
        after_investment_answer(pool, decision).1 is Ok ==> after_investment_answer(
            pool,
            decision,
        ).0.in_flight is None,
        after_withdrawal_answer(pool, ctx, auth).1 is Ok ==> after_withdrawal_answer(
            pool,
            ctx,
            auth,
        ).0.in_flight is None,
        pool.in_flight is None ==> {
            &&& after_init_answer(pool, sealed).0 == pool
            &&& after_init_answer(pool, sealed).1 is Err
            &&& after_deposit_answer(pool, sealed).0 == pool
            &&& after_deposit_answer(pool, sealed).1 is Err
            &&& after_investment_answer(pool, decision).0 == pool
            &&& after_investment_answer(pool, decision).1 is Err
            &&& after_withdrawal_answer(pool, ctx, auth).0 == pool
            &&& after_withdrawal_answer(pool, ctx, auth).1 is Err
        },
{
}

/// An answer to a request that was made against another version than the
/// pool's is refused: a sealed ledger is accepted only against the version
/// that it was computed from.
pub proof fn lemma_stale_answers_are_refused(
    pool: GhostPool,
    operation: Operation,
    version: u128,
    state: EncryptedState,
)
    requires
        pool.in_flight == Some(InFlight { operation, version }),
        version != pool.state_nonce,
    ensures
        after_init_answer(pool, Some(state)) == (
            pool,
            Err::<(), ErrorCode>(ErrorCode::UnexpectedCallback),
        ),
        after_deposit_answer(pool, Some(state)) == (
            pool,
            Err::<(), ErrorCode>(ErrorCode::UnexpectedCallback),
        ),
{
}

/// A sealed ledger that the pool waits for is accepted: for a pool that
/// waits on its first ledger, or on a deposit with room in its counter, at a
/// version below the last, the answer is stored, the version is one more,
/// the pool waits no longer, a deposit is counted, and nothing else changes.
pub proof fn lemma_awaited_ledger_is_accepted(pool: GhostPool, state: EncryptedState)
    requires
        pool.state_nonce < u128::MAX,
    ensures
        awaits(pool, Operation::InitPoolState) ==> after_init_answer(pool, Some(state)) == (
            GhostPool {
                encrypted_state: state,
                state_nonce: (pool.state_nonce + 1) as u128,
                in_flight: None,
                ..pool
            },
            Ok::<(), ErrorCode>(()),
        ),
        awaits(pool, Operation::ProcessDeposit) && pool.total_deposits < u64::MAX
            ==> after_deposit_answer(pool, Some(state)) == (
            GhostPool {
                encrypted_state: state,
                state_nonce: (pool.state_nonce + 1) as u128,
                total_deposits: (pool.total_deposits + 1) as u64,
                in_flight: None,
                ..pool
            },
            Ok::<(), ErrorCode>(()),
        ),
{
}

/// The public counters move only with an outside action that went through:
/// an answer of the network never moves the withdrawal counter or the
/// invested total, a transfer or a lending deposit that failed moves
/// neither, and one that went through moves its own by what it moved.
pub proof fn lemma_counters_follow_custody(
    pool: GhostPool,
    callback: AuthorizeWithdrawalCallback,
    auth: Option<WithdrawalAuth>,
    ctx: InvestInKamino,
    now: i64,
    succeeded: bool,
)
    ensures
        after_withdrawal_answer(pool, callback, auth).0.total_withdrawals
            == pool.total_withdrawals,
        after_transfer_outcome(pool, succeeded).1 is Ok ==> succeeded && after_transfer_outcome(
            pool,
            succeeded,
        ).0.total_withdrawals == pool.total_withdrawals + 1,
        after_transfer_outcome(pool, succeeded).1 is Err ==> after_transfer_outcome(
            pool,
            succeeded,
        ).0.total_withdrawals == pool.total_withdrawals,
        after_investment_outcome(pool, ctx, now, succeeded).1 is Ok ==> succeeded
            && after_investment_outcome(pool, ctx, now, succeeded).0.total_invested
            == pool.total_invested + pool.pending_investment_amount && after_investment_outcome(
            pool,
            ctx,
            now,
            succeeded,
        ).0.pending_investment_amount == 0,
        after_investment_outcome(pool, ctx, now, succeeded).1 is Err ==> after_investment_outcome(
            pool,
            ctx,
            now,
            succeeded,
        ).0 == pool,
{
}

} // verus!
