//! The ledger as mathematics: unbounded naturals, a sequence of positions, and
//! one specification function per transition. The executable ledger is
//! described by these functions through its view.

use vstd::prelude::*;

verus! {

/// Fixed-point scale of the cumulative yield index.
pub const YIELD_SCALE: u64 = 1_000_000_000;

/// One slot of the ledger.
pub struct Position {
    pub password_hash: u128,
    pub principal: nat,
    /// The global yield index at this position's last settlement.
    pub checkpoint: nat,
    pub active: bool,
}

/// The whole confidential state of a pool.
pub struct Ledger {
    pub positions: Seq<Position>,
    pub total_deposited: nat,
    pub total_invested: nat,
    pub pending_deposits: nat,
    pub yield_per_share: nat,
    pub deposit_count: nat,
}

/// What a withdrawal check found: whether a position answered to the hash, at
/// which slot, and whether its balance covers the amount.
pub struct Lookup {
    pub found: bool,
    pub slot: int,
    pub sufficient: bool,
}

/// The slot that never held a deposit.
pub open spec fn vacant() -> Position {
    Position { password_hash: 0, principal: 0, checkpoint: 0, active: false }
}

/// The ledger of a new pool with `capacity` slots.
pub open spec fn empty(capacity: nat) -> Ledger {
    Ledger {
        positions: Seq::new(capacity, |i: int| vacant()),
        total_deposited: 0,
        total_invested: 0,
        pending_deposits: 0,
        yield_per_share: 0,
        deposit_count: 0,
    }
}

/// The lowest index at or after `start` whose slot is inactive, or the
/// number of slots when every slot from `start` on is active.
pub open spec fn first_free_from(ps: Seq<Position>, start: int) -> int
    decreases ps.len() - start,
{
    if start < 0 || start >= ps.len() {
        ps.len() as int
    } else if !ps[start].active {
        start
    } else {
        first_free_from(ps, start + 1)
    }
}

/// The slot that the next deposit takes, or the number of slots when the
/// ledger is full.
pub open spec fn first_free(ps: Seq<Position>) -> int {
    first_free_from(ps, 0)
}

/// Whether every slot is active, so that the next deposit finds none.
pub open spec fn is_full(ps: Seq<Position>) -> bool {
    first_free(ps) >= ps.len()
}

/// A position answers to `hash` when it is active and stores that hash.
pub open spec fn answers(p: Position, hash: u128) -> bool {
    p.active && p.password_hash == hash
}

/// The lowest index at or after `start` whose position answers to `hash`,
/// or the number of slots when none does.
pub open spec fn first_match_from(ps: Seq<Position>, hash: u128, start: int) -> int
    decreases ps.len() - start,
{
    if start < 0 || start >= ps.len() {
        ps.len() as int
    } else if answers(ps[start], hash) {
        start
    } else {
        first_match_from(ps, hash, start + 1)
    }
}

/// The slot that decides a withdrawal under `hash`, or the number of slots
/// when no position answers to it.
pub open spec fn first_match(ps: Seq<Position>, hash: u128) -> int {
    first_match_from(ps, hash, 0)
}

/// How many slots are active.
pub open spec fn active_count(ps: Seq<Position>) -> nat
    decreases ps.len(),
{
    if ps.len() == 0 {
        0
    } else {
        active_count(ps.drop_last()) + if ps.last().active {
            1nat
        } else {
            0nat
        }
    }
}

/// The principals of the active slots, added up.
pub open spec fn principal_sum(ps: Seq<Position>) -> nat
    decreases ps.len(),
{
    if ps.len() == 0 {
        0
    } else {
        principal_sum(ps.drop_last()) + if ps.last().active {
            ps.last().principal
        } else {
            0nat
        }
    }
}

/// Yield owed on `principal` for a rise of the global index by `index_delta`:
/// the proportional share, rounded down.
pub open spec fn accrued_yield(principal: nat, index_delta: nat) -> nat {
    principal * index_delta / (YIELD_SCALE as nat)
}

/// By how much a yield event of `yield_amount` raises the global index of a
/// pool that holds `total_deposited`.
pub open spec fn index_rise(yield_amount: nat, total_deposited: nat) -> nat
    recommends
        total_deposited > 0,
{
    yield_amount * (YIELD_SCALE as nat) / total_deposited
}

/// What a position is worth at the global index `index`: its principal and
/// the yield accrued since its checkpoint. `None` when the checkpoint lies
/// ahead of the index, where the difference is not a natural number.
pub open spec fn balance(p: Position, index: nat) -> Option<nat> {
    if p.checkpoint > index {
        None
    } else {
        Some(p.principal + accrued_yield(p.principal, (index - p.checkpoint) as nat))
    }
}

/// Deposit: the first free slot takes the hash and the amount, with its
/// checkpoint at the current index; a full ledger stays as it is.
pub open spec fn deposit(l: Ledger, hash: u128, amount: nat) -> Ledger {
    if is_full(l.positions) {
        l
    } else {
        Ledger {
            positions: l.positions.update(
                first_free(l.positions),
                Position {
                    password_hash: hash,
                    principal: amount,
                    checkpoint: l.yield_per_share,
                    active: true,
                },
            ),
            total_deposited: l.total_deposited + amount,
            pending_deposits: l.pending_deposits + amount,
            deposit_count: l.deposit_count + 1,
            ..l
        }
    }
}

/// Whether the pending deposits have reached `threshold` (inclusive).
pub open spec fn investment_due(l: Ledger, threshold: nat) -> bool {
    l.pending_deposits >= threshold
}

/// Moves `amount` from pending to invested. `None` when less is pending.
pub open spec fn invest(l: Ledger, amount: nat) -> Option<Ledger> {
    if amount > l.pending_deposits {
        None
    } else {
        Some(
            Ledger {
                total_invested: l.total_invested + amount,
                pending_deposits: (l.pending_deposits - amount) as nat,
                ..l
            },
        )
    }
}

/// Records a yield event. An empty pool ignores it.
pub open spec fn add_yield(l: Ledger, yield_amount: nat) -> Ledger {
    if l.total_deposited > 0 {
        Ledger {
            yield_per_share: l.yield_per_share + index_rise(yield_amount, l.total_deposited),
            total_deposited: l.total_deposited + yield_amount,
            ..l
        }
    } else {
        l
    }
}

/// Looks up the first position that answers to `hash` and compares its
/// balance with `amount`. `None` when that position's checkpoint lies ahead
/// of the index.
pub open spec fn lookup(l: Ledger, hash: u128, amount: nat) -> Option<Lookup> {
    let i = first_match(l.positions, hash);
    if i >= l.positions.len() {
        Some(Lookup { found: false, slot: 0, sufficient: false })
    } else {
        match balance(l.positions[i], l.yield_per_share) {
            None => None,
            Some(b) => Some(Lookup { found: true, slot: i, sufficient: b >= amount }),
        }
    }
}

/// Takes `amount` out of slot `idx`: the slot keeps what is left of its
/// balance as its principal, its checkpoint moves to the current index, and a
/// slot left with nothing is deactivated and counted out. The pool's total
/// falls by `amount` whether or not `idx` names a slot. `None` when the
/// amount exceeds the slot's balance or the pool's total, when the slot's
/// checkpoint lies ahead of the index, or when a slot empties while the count
/// is already zero.
pub open spec fn withdraw(l: Ledger, idx: int, amount: nat) -> Option<Ledger> {
    if amount > l.total_deposited {
        None
    } else if 0 <= idx < l.positions.len() {
        let p = l.positions[idx];
        match balance(p, l.yield_per_share) {
            None => None,
            Some(b) => if amount > b {
                None
            } else if b == amount {
                if l.deposit_count == 0 {
                    None
                } else {
                    Some(
                        Ledger {
                            positions: l.positions.update(
                                idx,
                                Position {
                                    principal: 0,
                                    checkpoint: l.yield_per_share,
                                    active: false,
                                    ..p
                                },
                            ),
                            total_deposited: (l.total_deposited - amount) as nat,
                            deposit_count: (l.deposit_count - 1) as nat,
                            ..l
                        },
                    )
                }
            } else {
                Some(
                    Ledger {
                        positions: l.positions.update(
                            idx,
                            Position {
                                principal: (b - amount) as nat,
                                checkpoint: l.yield_per_share,
                                ..p
                            },
                        ),
                        total_deposited: (l.total_deposited - amount) as nat,
                        ..l
                    },
                )
            },
        }
    } else {
        Some(Ledger { total_deposited: (l.total_deposited - amount) as nat, ..l })
    }
}

/// The yield owed to the active slots at the global index `index`, before
/// rounding and still scaled: each principal times the rise of the index
/// since the slot's checkpoint, added up.
pub open spec fn owed_scaled(ps: Seq<Position>, index: nat) -> int
    decreases ps.len(),
{
    if ps.len() == 0 {
        0
    } else {
        owed_scaled(ps.drop_last(), index) + if ps.last().active {
            ps.last().principal * (index - ps.last().checkpoint)
        } else {
            0int
        }
    }
}

/// The yield that the active slots can claim at the global index `index`:
/// each slot's accrued yield, rounded down, added up.
pub open spec fn accrued_sum(ps: Seq<Position>, index: nat) -> nat
    decreases ps.len(),
{
    if ps.len() == 0 {
        0
    } else {
        accrued_sum(ps.drop_last(), index) + if ps.last().active {
            accrued_yield(ps.last().principal, (index - ps.last().checkpoint) as nat)
        } else {
            0nat
        }
    }
}

/// What the active slots are worth together at the global index `index`:
/// each slot's principal and accrued yield, added up.
pub open spec fn balance_sum(ps: Seq<Position>, index: nat) -> nat
    decreases ps.len(),
{
    if ps.len() == 0 {
        0
    } else {
        balance_sum(ps.drop_last(), index) + if ps.last().active {
            ps.last().principal + accrued_yield(
                ps.last().principal,
                (index - ps.last().checkpoint) as nat,
            )
        } else {
            0nat
        }
    }
}

/// Every active slot's checkpoint is at the index and the total is the
/// principals: no yield is owed and none is left over.
pub open spec fn settled(l: Ledger) -> bool {
    &&& l.total_deposited == principal_sum(l.positions)
    &&& forall|i: int|
        0 <= i < l.positions.len() && (#[trigger] l.positions[i]).active ==> l.positions[i].checkpoint
            == l.yield_per_share
}

/// The count matches the active slots, and no active slot's checkpoint lies
/// ahead of the index.
pub open spec fn consistent(l: Ledger) -> bool {
    &&& l.deposit_count == active_count(l.positions)
    &&& forall|i: int|
        0 <= i < l.positions.len() && (#[trigger] l.positions[i]).active ==> l.positions[i].checkpoint
            <= l.yield_per_share
}

/// The pool's total covers what it owes: the principals of the active slots,
/// and on top of them the yield that those slots have accrued.
pub open spec fn solvent(l: Ledger) -> bool {
    &&& principal_sum(l.positions) <= l.total_deposited
    &&& owed_scaled(l.positions, l.yield_per_share) <= (YIELD_SCALE as int) * (l.total_deposited
        - principal_sum(l.positions))
}

/// What the pool has not invested is still pending or was never counted out:
/// pending and invested together do not exceed the total.
pub open spec fn funds_accounted(l: Ledger) -> bool {
    l.pending_deposits + l.total_invested <= l.total_deposited
}

/// An event of a pool's life that takes money in.
pub enum Inflow {
    Deposit { hash: u128, amount: nat },
    Yield { amount: nat },
}

/// The ledger after one inflow.
pub open spec fn after_inflow(l: Ledger, e: Inflow) -> Ledger {
    match e {
        Inflow::Deposit { hash, amount } => deposit(l, hash, amount),
        Inflow::Yield { amount } => add_yield(l, amount),
    }
}

/// The ledger of a pool with `capacity` slots after the inflows `events`,
/// oldest first.
pub open spec fn after_inflows(capacity: nat, events: Seq<Inflow>) -> Ledger
    decreases events.len(),
{
    if events.len() == 0 {
        empty(capacity)
    } else {
        after_inflow(after_inflows(capacity, events.drop_last()), events.last())
    }
}

/// All the yield that `events` recorded: the amounts of the yield events that
/// met a pool holding something.
pub open spec fn yield_recorded(capacity: nat, events: Seq<Inflow>) -> nat
    decreases events.len(),
{
    if events.len() == 0 {
        0
    } else {
        let before = after_inflows(capacity, events.drop_last());
        yield_recorded(capacity, events.drop_last()) + match events.last() {
            Inflow::Yield { amount } if before.total_deposited > 0 => amount,
            _ => 0nat,
        }
    }
}

} // verus!
