//! What holds of the ledger's transitions taken together, proved over the
//! model in [`crate::model`].

use crate::ledger::{revealed, PoolState};
use crate::model::{
    accrued_sum, accrued_yield, active_count, add_yield, after_inflows, answers, balance,
    balance_sum, consistent, deposit, empty, first_free, first_free_from, first_match, first_match_from,
    funds_accounted, index_rise, invest, investment_due, is_full, lookup, owed_scaled,
    principal_sum, settled, solvent, withdraw, yield_recorded, Inflow, Ledger, Lookup, Position,
    YIELD_SCALE,
};
use vstd::prelude::*;

verus! {

/// Replacing one slot changes the number of active slots by that slot's part
/// in it.
pub proof fn lemma_active_count_update(ps: Seq<Position>, i: int, p: Position)
    requires
        0 <= i < ps.len(),
    ensures
        active_count(ps.update(i, p)) + (if ps[i].active {
            1int
        } else {
            0int
        }) == active_count(ps) + (if p.active {
            1int
        } else {
            0int
        }),
    decreases ps.len(),
{
    if i == ps.len() - 1 {
        assert(ps.update(i, p).drop_last() =~= ps.drop_last());
    } else {
        assert(ps.update(i, p).drop_last() =~= ps.drop_last().update(i, p));
        lemma_active_count_update(ps.drop_last(), i, p);
    }
}

/// Replacing one slot changes the sum of principals by that slot's part in it.
pub proof fn lemma_principal_sum_update(ps: Seq<Position>, i: int, p: Position)
    requires
        0 <= i < ps.len(),
    ensures
        principal_sum(ps.update(i, p)) + (if ps[i].active {
            ps[i].principal as int
        } else {
            0int
        }) == principal_sum(ps) + (if p.active {
            p.principal as int
        } else {
            0int
        }),
    decreases ps.len(),
{
    if i == ps.len() - 1 {
        assert(ps.update(i, p).drop_last() =~= ps.drop_last());
    } else {
        assert(ps.update(i, p).drop_last() =~= ps.drop_last().update(i, p));
        lemma_principal_sum_update(ps.drop_last(), i, p);
    }
}

/// Replacing one slot changes the scaled yield owed by that slot's part in it.
pub proof fn lemma_owed_scaled_update(ps: Seq<Position>, index: nat, i: int, p: Position)
    requires
        0 <= i < ps.len(),
    ensures
        owed_scaled(ps.update(i, p), index) + (if ps[i].active {
            ps[i].principal * (index - ps[i].checkpoint)
        } else {
            0int
        }) == owed_scaled(ps, index) + (if p.active {
            p.principal * (index - p.checkpoint)
        } else {
            0int
        }),
    decreases ps.len(),
{
    if i == ps.len() - 1 {
        assert(ps.update(i, p).drop_last() =~= ps.drop_last());
    } else {
        assert(ps.update(i, p).drop_last() =~= ps.drop_last().update(i, p));
        lemma_owed_scaled_update(ps.drop_last(), index, i, p);
    }
}

/// The first free slot, where there is one, is inactive and every slot below
/// it is active; where there is none, every slot is active.
pub proof fn lemma_first_free(ps: Seq<Position>, start: int)
    requires
        0 <= start <= ps.len(),
    ensures
        start <= first_free_from(ps, start) <= ps.len(),
        first_free_from(ps, start) < ps.len() ==> !ps[first_free_from(ps, start)].active,
        forall|j: int| start <= j < first_free_from(ps, start) ==> (#[trigger] ps[j]).active,
    decreases ps.len() - start,
{
    if start < ps.len() && ps[start].active {
        lemma_first_free(ps, start + 1);
    }
}

/// The first slot that answers to a hash, where there is one, answers to it
/// and no slot below it does; where there is none, no slot answers.
pub proof fn lemma_first_match(ps: Seq<Position>, hash: u128, start: int)
    requires
        0 <= start <= ps.len(),
    ensures
        start <= first_match_from(ps, hash, start) <= ps.len(),
        first_match_from(ps, hash, start) < ps.len() ==> answers(
            ps[first_match_from(ps, hash, start)],
            hash,
        ),
        forall|j: int|
            start <= j < first_match_from(ps, hash, start) ==> !answers(#[trigger] ps[j], hash),
    decreases ps.len() - start,
{
    if start < ps.len() && !answers(ps[start], hash) {
        lemma_first_match(ps, hash, start + 1);
    }
}

/// A slot that is inactive, with every slot below it active, is the first
/// free slot.
pub proof fn lemma_first_free_is(ps: Seq<Position>, k: int)
    requires
        0 <= k < ps.len(),
        !ps[k].active,
        forall|j: int| 0 <= j < k ==> (#[trigger] ps[j]).active,
    ensures
        first_free(ps) == k,
{
    lemma_first_free(ps, 0);
}

/// A new pool's ledger is consistent and solvent, with nothing in it.
pub proof fn lemma_empty_is_valid(capacity: nat)
    ensures
        consistent(empty(capacity)),
        solvent(empty(capacity)),
        funds_accounted(empty(capacity)),
        active_count(empty(capacity).positions) == 0,
        principal_sum(empty(capacity).positions) == 0,
        owed_scaled(empty(capacity).positions, 0) == 0,
    decreases capacity,
{
    if capacity > 0 {
        lemma_empty_is_valid((capacity - 1) as nat);
        assert(empty(capacity).positions.drop_last() =~= empty((capacity - 1) as nat).positions);
    }
}

/// With an active slot in it, a ledger's active count is at least one, its
/// principals add up to at least that slot's principal, and, where no active
/// slot's checkpoint lies ahead of the index, the scaled yield owed is at
/// least that slot's part of it.
pub proof fn lemma_parts_bounded(ps: Seq<Position>, index: nat, i: int)
    requires
        0 <= i < ps.len(),
        ps[i].active,
        forall|j: int| 0 <= j < ps.len() && (#[trigger] ps[j]).active ==> ps[j].checkpoint <= index,
    ensures
        active_count(ps) >= 1,
        principal_sum(ps) >= ps[i].principal,
        owed_scaled(ps, index) >= ps[i].principal * (index - ps[i].checkpoint) >= 0,
    decreases ps.len(),
{
    lemma_owed_nonnegative(ps.drop_last(), index);
    let last = ps.last();
    if last.active {
        assert(last.principal * (index - last.checkpoint) >= 0) by (nonlinear_arith)
            requires
                last.principal >= 0,
                index - last.checkpoint >= 0,
        ;
    }
    if i < ps.len() - 1 {
        lemma_parts_bounded(ps.drop_last(), index, i);
    }
}

/// Where no active slot's checkpoint lies ahead of the index, the scaled
/// yield owed is not negative.
pub proof fn lemma_owed_nonnegative(ps: Seq<Position>, index: nat)
    requires
        forall|j: int| 0 <= j < ps.len() && (#[trigger] ps[j]).active ==> ps[j].checkpoint <= index,
    ensures
        owed_scaled(ps, index) >= 0,
    decreases ps.len(),
{
    if ps.len() > 0 {
        lemma_owed_nonnegative(ps.drop_last(), index);
        let last = ps.last();
        if last.active {
            assert(last.principal * (index - last.checkpoint) >= 0) by (nonlinear_arith)
                requires
                    last.principal >= 0,
                    index - last.checkpoint >= 0,
            ;
        }
    }
}

/// A rise of the index by `rise` adds to the scaled yield owed `rise` times
/// the principals.
pub proof fn lemma_owed_after_rise(ps: Seq<Position>, index: nat, rise: nat)
    ensures
        owed_scaled(ps, index + rise) == owed_scaled(ps, index) + principal_sum(ps) * rise,
    decreases ps.len(),
{
    if ps.len() > 0 {
        lemma_owed_after_rise(ps.drop_last(), index, rise);
        let last = ps.last();
        let rest = principal_sum(ps.drop_last());
        if last.active {
            assert(last.principal * (index + rise - last.checkpoint) == last.principal * (index
                - last.checkpoint) + last.principal * rise) by (nonlinear_arith);
            assert((rest + last.principal) * rise == rest * rise + last.principal * rise)
                by (nonlinear_arith);
        } else {
            assert(principal_sum(ps) == rest);
        }
    } else {
        assert(principal_sum(ps) * rise == 0) by (nonlinear_arith)
            requires
                principal_sum(ps) == 0,
        ;
    }
}

/// A deposit keeps the ledger consistent, solvent and accounted for, and
/// leaves the yield index where it was.
pub proof fn lemma_deposit_keeps_valid(l: Ledger, hash: u128, amount: nat)
    ensures
        consistent(l) ==> consistent(deposit(l, hash, amount)),
        consistent(l) && solvent(l) ==> solvent(deposit(l, hash, amount)),
        funds_accounted(l) ==> funds_accounted(deposit(l, hash, amount)),
        deposit(l, hash, amount).yield_per_share == l.yield_per_share,
        deposit(l, hash, amount).positions.len() == l.positions.len(),
{
    if !is_full(l.positions) {
        let k = first_free(l.positions);
        let entry = Position {
            password_hash: hash,
            principal: amount,
            checkpoint: l.yield_per_share,
            active: true,
        };
        lemma_first_free(l.positions, 0);
        lemma_active_count_update(l.positions, k, entry);
        lemma_principal_sum_update(l.positions, k, entry);
        lemma_owed_scaled_update(l.positions, l.yield_per_share, k, entry);
        assert(amount * (l.yield_per_share - l.yield_per_share) == 0) by (nonlinear_arith);
        assert((YIELD_SCALE as int) * (l.total_deposited + amount - (principal_sum(l.positions)
            + amount)) == (YIELD_SCALE as int) * (l.total_deposited - principal_sum(l.positions)));
    }
}

/// Recording an investment keeps the ledger consistent, solvent and
/// accounted for, and leaves the yield index where it was.
pub proof fn lemma_invest_keeps_valid(l: Ledger, amount: nat)
    requires
        invest(l, amount) is Some,
    ensures
        consistent(l) ==> consistent(invest(l, amount).unwrap()),
        solvent(l) ==> solvent(invest(l, amount).unwrap()),
        funds_accounted(l) ==> funds_accounted(invest(l, amount).unwrap()),
        invest(l, amount).unwrap().yield_per_share == l.yield_per_share,
{
}

/// A yield event keeps the ledger consistent, solvent and accounted for,
/// and never lowers the yield index.
pub proof fn lemma_yield_keeps_valid(l: Ledger, yield_amount: nat)
    ensures
        consistent(l) ==> consistent(add_yield(l, yield_amount)),
        consistent(l) && solvent(l) ==> solvent(add_yield(l, yield_amount)),
        funds_accounted(l) ==> funds_accounted(add_yield(l, yield_amount)),
        add_yield(l, yield_amount).yield_per_share >= l.yield_per_share,
{
    if l.total_deposited > 0 && consistent(l) && solvent(l) {
        let rise = index_rise(yield_amount, l.total_deposited);
        let sum = principal_sum(l.positions);
        let total = l.total_deposited;
        let scale = YIELD_SCALE as int;
        lemma_owed_after_rise(l.positions, l.yield_per_share, rise);
        assert(total * rise <= yield_amount * scale) by (nonlinear_arith)
            requires
                total > 0,
                rise == (yield_amount * scale) / (total as int),
                yield_amount * scale >= 0,
        ;
        assert(sum * rise <= total * rise) by (nonlinear_arith)
            requires
                0 <= sum <= total,
                rise >= 0,
        ;
        assert(scale * (total + yield_amount - sum) == scale * (total - sum) + yield_amount
            * scale) by (nonlinear_arith);
    }
}

/// Rounding down to whole units loses less than one unit: the scaled value of
/// the accrued yield is at most the scaled yield owed, and short of it by less
/// than the scale.
pub proof fn lemma_accrued_rounding(principal: nat, index_delta: nat)
    ensures
        (YIELD_SCALE as int) * accrued_yield(principal, index_delta) <= principal * index_delta,
        principal * index_delta < (YIELD_SCALE as int) * accrued_yield(principal, index_delta)
            + (YIELD_SCALE as int),
{
    let owed: int = (principal * index_delta) as int;
    let scale: int = YIELD_SCALE as int;
    assert(scale * (owed / scale) <= owed < scale * (owed / scale) + scale) by (nonlinear_arith)
        requires
            scale > 0,
            owed >= 0,
    ;
}

/// In a consistent and solvent ledger no active slot is worth more than the
/// pool's total.
pub proof fn lemma_balance_covered(l: Ledger, i: int)
    requires
        consistent(l),
        solvent(l),
        0 <= i < l.positions.len(),
        l.positions[i].active,
    ensures
        balance(l.positions[i], l.yield_per_share) is Some,
        balance(l.positions[i], l.yield_per_share).unwrap() <= l.total_deposited,
{
    let p = l.positions[i];
    let delta = (l.yield_per_share - p.checkpoint) as nat;
    lemma_parts_bounded(l.positions, l.yield_per_share, i);
    lemma_accrued_rounding(p.principal, delta);
    let scale = YIELD_SCALE as int;
    let room = l.total_deposited - principal_sum(l.positions);
    assert(accrued_yield(p.principal, delta) <= room) by (nonlinear_arith)
        requires
            scale > 0,
            scale * accrued_yield(p.principal, delta) <= scale * room,
    ;
}

/// Settling a withdrawal from an active slot keeps the ledger consistent and
/// solvent, and leaves the yield index where it was. It lowers the total and
/// neither the pending nor the invested amount, so the ledger stays accounted
/// for exactly where the total had the amount to spare over the two.
pub proof fn lemma_withdraw_keeps_valid(l: Ledger, idx: int, amount: nat)
    requires
        consistent(l),
        solvent(l),
        0 <= idx < l.positions.len(),
        l.positions[idx].active,
        withdraw(l, idx, amount) is Some,
    ensures
        consistent(withdraw(l, idx, amount).unwrap()),
        solvent(withdraw(l, idx, amount).unwrap()),
        withdraw(l, idx, amount).unwrap().yield_per_share == l.yield_per_share,
        withdraw(l, idx, amount).unwrap().positions.len() == l.positions.len(),
        funds_accounted(withdraw(l, idx, amount).unwrap()) <==> l.pending_deposits
            + l.total_invested + amount <= l.total_deposited,
{
    let after = withdraw(l, idx, amount).unwrap();
    let p = l.positions[idx];
    let q = after.positions[idx];
    let delta = (l.yield_per_share - p.checkpoint) as nat;
    let accrued = accrued_yield(p.principal, delta);
    let scale = YIELD_SCALE as int;
    assert(after.positions == l.positions.update(idx, q));
    lemma_active_count_update(l.positions, idx, q);
    lemma_principal_sum_update(l.positions, idx, q);
    lemma_owed_scaled_update(l.positions, l.yield_per_share, idx, q);
    lemma_parts_bounded(l.positions, l.yield_per_share, idx);
    lemma_accrued_rounding(p.principal, delta);
    assert(q.principal * (l.yield_per_share - q.checkpoint) == 0) by (nonlinear_arith)
        requires
            q.checkpoint == l.yield_per_share,
    ;
    assert(q.principal == p.principal + accrued - amount);
    let room = l.total_deposited - principal_sum(l.positions);
    assert(scale * (room - accrued) == scale * room - scale * accrued) by (nonlinear_arith);
    assert(accrued <= room) by (nonlinear_arith)
        requires
            scale > 0,
            scale * accrued <= scale * room,
    ;
}

/// Every transition leaves the number of slots as it was and never lowers
/// the yield index.
pub proof fn lemma_index_never_falls(l: Ledger, hash: u128, idx: int, amount: nat)
    ensures
        deposit(l, hash, amount).yield_per_share >= l.yield_per_share,
        add_yield(l, amount).yield_per_share >= l.yield_per_share,
        invest(l, amount) matches Some(after) ==> after.yield_per_share >= l.yield_per_share,
        withdraw(l, idx, amount) matches Some(after) ==> after.yield_per_share
            >= l.yield_per_share,
{
}

/// The two phases of a withdrawal agree: in a consistent and solvent ledger,
/// a withdrawal that the lookup authorizes can be settled at the slot and for
/// the amount that it names.
pub proof fn lemma_authorized_withdrawal_settles(l: Ledger, hash: u128, amount: nat)
    requires
        consistent(l),
        solvent(l),
        lookup(l, hash, amount) matches Some(found) && found.found && found.sufficient,
    ensures
        withdraw(l, lookup(l, hash, amount).unwrap().slot, amount) is Some,
{
    let slot = lookup(l, hash, amount).unwrap().slot;
    lemma_first_match(l.positions, hash, 0);
    lemma_balance_covered(l, slot);
    lemma_parts_bounded(l.positions, l.yield_per_share, slot);
}

/// After any inflows into a new pool, the count is the number of active
/// slots and the total is the principals of those slots plus all the yield
/// recorded; the ledger is consistent, solvent and accounted for. Deposits
/// that found the pool full changed nothing and are covered too.
pub proof fn lemma_inflows_add_up(capacity: nat, events: Seq<Inflow>)
    ensures
        after_inflows(capacity, events).deposit_count == active_count(
            after_inflows(capacity, events).positions,
        ),
        after_inflows(capacity, events).total_deposited == principal_sum(
            after_inflows(capacity, events).positions,
        ) + yield_recorded(capacity, events),
        after_inflows(capacity, events).positions.len() == capacity,
        consistent(after_inflows(capacity, events)),
        solvent(after_inflows(capacity, events)),
        funds_accounted(after_inflows(capacity, events)),
    decreases events.len(),
{
    if events.len() == 0 {
        lemma_empty_is_valid(capacity);
    } else {
        lemma_inflows_add_up(capacity, events.drop_last());
        let before = after_inflows(capacity, events.drop_last());
        match events.last() {
            Inflow::Deposit { hash, amount } => {
                lemma_deposit_keeps_valid(before, hash, amount);
                if !is_full(before.positions) {
                    lemma_first_free(before.positions, 0);
                    lemma_principal_sum_update(
                        before.positions,
                        first_free(before.positions),
                        Position {
                            password_hash: hash,
                            principal: amount,
                            checkpoint: before.yield_per_share,
                            active: true,
                        },
                    );
                }
            },
            Inflow::Yield { amount } => {
                lemma_yield_keeps_valid(before, amount);
            },
        }
    }
}

/// A deposit into a full ledger changes nothing.
pub proof fn lemma_full_ledger_ignores_deposit(l: Ledger, hash: u128, amount: nat)
    requires
        is_full(l.positions),
    ensures
        deposit(l, hash, amount) == l,
{
}

/// A deposit into a ledger with a free slot fills the lowest free slot and
/// no other, and counts it.
pub proof fn lemma_deposit_takes_first_free(l: Ledger, hash: u128, amount: nat)
    requires
        !is_full(l.positions),
    ensures
        0 <= first_free(l.positions) < l.positions.len(),
        !l.positions[first_free(l.positions)].active,
        forall|j: int| 0 <= j < first_free(l.positions) ==> (#[trigger] l.positions[j]).active,
        deposit(l, hash, amount).positions[first_free(l.positions)] == (Position {
            password_hash: hash,
            principal: amount,
            checkpoint: l.yield_per_share,
            active: true,
        }),
        forall|j: int|
            0 <= j < l.positions.len() && j != first_free(l.positions) ==> deposit(
                l,
                hash,
                amount,
            ).positions[j] == l.positions[j],
        deposit(l, hash, amount).deposit_count == l.deposit_count + 1,
        deposit(l, hash, amount).total_deposited == l.total_deposited + amount,
        deposit(l, hash, amount).pending_deposits == l.pending_deposits + amount,
{
    lemma_first_free(l.positions, 0);
}

/// A depositor whose checkpoint is at the index when a yield event arrives is
/// owed, right after it, the proportional share of that event rounded down:
/// the principal times the rise of the index, over the scale. A withdrawal
/// check for that depositor's hash compares the amount asked with the principal
/// plus that share.
pub proof fn lemma_yield_accrues_proportionally(
    l: Ledger,
    i: int,
    yield_amount: nat,
    hash: u128,
    amount: nat,
)
    requires
        l.total_deposited > 0,
        0 <= i < l.positions.len(),
        l.positions[i].active,
        l.positions[i].checkpoint == l.yield_per_share,
    ensures
        balance(add_yield(l, yield_amount).positions[i], add_yield(l, yield_amount).yield_per_share)
            == Some(
            l.positions[i].principal + accrued_yield(
                l.positions[i].principal,
                index_rise(yield_amount, l.total_deposited),
            ),
        ),
        first_match(l.positions, hash) == i ==> lookup(add_yield(l, yield_amount), hash, amount)
            == Some(
            Lookup {
                found: true,
                slot: i,
                sufficient: l.positions[i].principal + accrued_yield(
                    l.positions[i].principal,
                    index_rise(yield_amount, l.total_deposited),
                ) >= amount,
            },
        ),
{
    let rise = index_rise(yield_amount, l.total_deposited);
    assert((l.yield_per_share + rise - l.yield_per_share) as nat == rise);
}

/// Withdrawing the whole balance of an active slot frees it: the settlement
/// goes through, the slot is inactive afterwards, the count falls by exactly
/// one, and no free slot lies above it to be taken first. Where the slots
/// below it are all active, the next deposit goes into this very slot.
pub proof fn lemma_full_withdrawal_frees_slot(l: Ledger, idx: int, hash: u128, amount: nat)
    requires
        consistent(l),
        solvent(l),
        0 <= idx < l.positions.len(),
        l.positions[idx].active,
    ensures
        balance(l.positions[idx], l.yield_per_share) is Some,
        withdraw(l, idx, balance(l.positions[idx], l.yield_per_share).unwrap()) is Some,
        ({
            let after = withdraw(
                l,
                idx,
                balance(l.positions[idx], l.yield_per_share).unwrap(),
            ).unwrap();
            &&& !after.positions[idx].active
            &&& after.positions[idx].principal == 0
            &&& after.deposit_count + 1 == l.deposit_count
            &&& first_free(after.positions) <= idx
            &&& first_free(l.positions) > idx ==> first_free(after.positions) == idx && deposit(
                after,
                hash,
                amount,
            ).positions[idx] == (Position {
                password_hash: hash,
                principal: amount,
                checkpoint: after.yield_per_share,
                active: true,
            })
        }),
{
    lemma_balance_covered(l, idx);
    lemma_parts_bounded(l.positions, l.yield_per_share, idx);
    let whole = balance(l.positions[idx], l.yield_per_share).unwrap();
    let after = withdraw(l, idx, whole).unwrap();
    lemma_first_free(after.positions, 0);
    lemma_first_free(l.positions, 0);
    if first_free(l.positions) > idx {
        assert forall|j: int| 0 <= j < idx implies (#[trigger] after.positions[j]).active by {
            assert(l.positions[j].active);
        }
        lemma_first_free_is(after.positions, idx);
    }
}

/// The investment threshold is inclusive: pending deposits equal to the
/// threshold are due for investment.
pub proof fn lemma_threshold_is_inclusive(l: Ledger, threshold: nat)
    requires
        l.pending_deposits == threshold,
    ensures
        investment_due(l, threshold),
{
}

/// Rounding each claim down never pays out more than is owed, and holds back
/// less than one unit for each active slot.
pub proof fn lemma_rounding_loss(ps: Seq<Position>, index: nat)
    requires
        forall|j: int| 0 <= j < ps.len() && (#[trigger] ps[j]).active ==> ps[j].checkpoint <= index,
    ensures
        (YIELD_SCALE as int) * accrued_sum(ps, index) <= owed_scaled(ps, index),
        owed_scaled(ps, index) <= (YIELD_SCALE as int) * accrued_sum(ps, index) + active_count(ps)
            * (YIELD_SCALE - 1),
    decreases ps.len(),
{
    let scale = YIELD_SCALE as int;
    if ps.len() > 0 {
        lemma_rounding_loss(ps.drop_last(), index);
        let last = ps.last();
        let rest = accrued_sum(ps.drop_last(), index);
        let count = active_count(ps.drop_last());
        if last.active {
            let delta = (index - last.checkpoint) as nat;
            let claim = accrued_yield(last.principal, delta);
            lemma_accrued_rounding(last.principal, delta);
            assert(scale * (rest + claim) == scale * rest + scale * claim) by (nonlinear_arith);
            assert((count + 1) * (scale - 1) == count * (scale - 1) + (scale - 1))
                by (nonlinear_arith);
        }
    }
}

/// A ledger that holds something has an active slot.
pub proof fn lemma_principals_need_a_slot(ps: Seq<Position>)
    requires
        principal_sum(ps) > 0,
    ensures
        active_count(ps) >= 1,
    decreases ps.len(),
{
    if ps.len() > 0 && !ps.last().active {
        lemma_principals_need_a_slot(ps.drop_last());
    }
}

/// Where every active slot's checkpoint is at the index, no yield is owed.
pub proof fn lemma_nothing_owed_at_checkpoint(ps: Seq<Position>, index: nat)
    requires
        forall|j: int| 0 <= j < ps.len() && (#[trigger] ps[j]).active ==> ps[j].checkpoint == index,
    ensures
        owed_scaled(ps, index) == 0,
    decreases ps.len(),
{
    if ps.len() > 0 {
        lemma_nothing_owed_at_checkpoint(ps.drop_last(), index);
        let last = ps.last();
        if last.active {
            assert(last.principal * (index - last.checkpoint) == 0) by (nonlinear_arith)
                requires
                    last.checkpoint == index,
            ;
        }
    }
}

/// How a yield event is shared out among the depositors of a settled pool.
/// What they can claim afterwards, each share rounded down, never exceeds the
/// yield. What rounding holds back, scaled, is at most the remainder of the
/// index's own division, less than the total, and less than one unit for each
/// claimant. So where the yield divides into the index without remainder,
/// less than one unit per claimant is held back; and in a pool whose total
/// does not exceed the scale, at most one unit per claimant.
pub proof fn lemma_yield_shared_out(l: Ledger, yield_amount: nat)
    requires
        settled(l),
        l.total_deposited > 0,
    ensures
        ({
            let after = add_yield(l, yield_amount);
            let paid = accrued_sum(after.positions, after.yield_per_share);
            let claimants = active_count(l.positions);
            &&& claimants >= 1
            &&& paid <= yield_amount
            &&& (YIELD_SCALE as int) * (yield_amount - paid) <= (l.total_deposited - 1) + claimants
                * (YIELD_SCALE - 1)
            &&& (yield_amount * (YIELD_SCALE as nat)) % l.total_deposited == 0 ==> yield_amount
                - paid < claimants
            &&& l.total_deposited <= YIELD_SCALE ==> yield_amount - paid <= claimants
        }),
{
    let after = add_yield(l, yield_amount);
    let paid = accrued_sum(after.positions, after.yield_per_share) as int;
    let claimants = active_count(l.positions) as int;
    let scale = YIELD_SCALE as int;
    let total = l.total_deposited as int;
    let rise = index_rise(yield_amount, l.total_deposited) as int;
    let scaled_yield: int = (yield_amount * (YIELD_SCALE as nat)) as int;
    let y = yield_amount as int;
    lemma_principals_need_a_slot(l.positions);
    lemma_nothing_owed_at_checkpoint(l.positions, l.yield_per_share);
    lemma_owed_after_rise(l.positions, l.yield_per_share, rise as nat);
    lemma_rounding_loss(after.positions, after.yield_per_share);
    let owed = owed_scaled(after.positions, after.yield_per_share);
    assert(owed == total * rise);
    assert(total * rise <= scaled_yield < total * rise + total && (scaled_yield % total == 0
        ==> total * rise == scaled_yield)) by (nonlinear_arith)
        requires
            total > 0,
            scaled_yield >= 0,
            rise == scaled_yield / total,
    ;
    assert(scaled_yield == scale * y) by (nonlinear_arith)
        requires
            scaled_yield == y * scale,
    ;
    assert(scale * (y - paid) == scale * y - scale * paid) by (nonlinear_arith);
    assert(paid <= y) by (nonlinear_arith)
        requires
            scale > 0,
            scale * paid <= scale * y,
    ;
    if scaled_yield % total == 0 {
        assert(y - paid < claimants) by (nonlinear_arith)
            requires
                scale > 0,
                claimants >= 1,
                scale * (y - paid) <= claimants * (scale - 1),
        ;
    }
    if total <= scale {
        assert(y - paid <= claimants) by (nonlinear_arith)
            requires
                scale > 0,
                claimants >= 1,
                total <= scale,
                scale * (y - paid) <= (total - 1) + claimants * (scale - 1),
        ;
    }
}

/// A withdrawal lowers the total alone. Whatever slot it names, the ledger is
/// accounted for afterwards exactly where pending, invested and the amount
/// withdrawn together did not exceed the total before.
pub proof fn lemma_withdraw_accounting(l: Ledger, idx: int, amount: nat)
    requires
        withdraw(l, idx, amount) is Some,
    ensures
        withdraw(l, idx, amount).unwrap().pending_deposits == l.pending_deposits,
        withdraw(l, idx, amount).unwrap().total_invested == l.total_invested,
        withdraw(l, idx, amount).unwrap().total_deposited + amount == l.total_deposited,
        funds_accounted(withdraw(l, idx, amount).unwrap()) <==> l.pending_deposits
            + l.total_invested + amount <= l.total_deposited,
{
}

/// What the active slots are worth together is their principals and what
/// they can claim in yield.
pub proof fn lemma_balances_are_principals_and_claims(ps: Seq<Position>, index: nat)
    ensures
        balance_sum(ps, index) == principal_sum(ps) + accrued_sum(ps, index),
    decreases ps.len(),
{
    if ps.len() > 0 {
        lemma_balances_are_principals_and_claims(ps.drop_last(), index);
    }
}

/// The most that a withdrawal check grants. In a consistent and solvent
/// state, the slot that decides under `hash` has a balance that fits 64
/// bits, and the check authorizes an amount exactly when the amount does not
/// exceed that balance: the balance is the largest amount authorized.
pub proof fn lemma_largest_authorized_amount(s: PoolState, hash: u128, amount: u64)
    requires
        consistent(s@),
        solvent(s@),
        first_match(s@.positions, hash) < s@.positions.len(),
    ensures
        balance(s@.positions[first_match(s@.positions, hash)], s@.yield_per_share) is Some,
        balance(s@.positions[first_match(s@.positions, hash)], s@.yield_per_share).unwrap()
            <= u64::MAX,
        lookup(s@, hash, amount as nat) is Some,
        revealed(lookup(s@, hash, amount as nat).unwrap(), amount).authorized <==> amount
            <= balance(
            s@.positions[first_match(s@.positions, hash)],
            s@.yield_per_share,
        ).unwrap(),
        revealed(lookup(s@, hash, amount as nat).unwrap(), amount).found_idx == first_match(
            s@.positions,
            hash,
        ),
{
    lemma_first_match(s@.positions, hash, 0);
    lemma_balance_covered(s@, first_match(s@.positions, hash));
}

/// How a yield event shows in what the depositors of a settled pool can
/// withdraw. After the event the ledger is consistent and solvent, so that
/// each depositor's balance is the largest amount that a check authorizes.
/// Those balances exceed the principals by no more than the yield, and, where
/// the yield divides into the index without remainder, by less than one unit
/// per depositor short of it.
pub proof fn lemma_yield_shows_in_balances(l: Ledger, yield_amount: nat)
    requires
        consistent(l),
        settled(l),
        l.total_deposited > 0,
    ensures
        consistent(add_yield(l, yield_amount)),
        solvent(add_yield(l, yield_amount)),
        ({
            let after = add_yield(l, yield_amount);
            let gained = balance_sum(after.positions, after.yield_per_share) - principal_sum(
                after.positions,
            );
            &&& 0 <= gained <= yield_amount
            &&& (yield_amount * (YIELD_SCALE as nat)) % l.total_deposited == 0 ==> yield_amount
                - gained < active_count(after.positions)
            &&& l.total_deposited <= YIELD_SCALE ==> yield_amount - gained <= active_count(
                after.positions,
            )
        }),
{
    let after = add_yield(l, yield_amount);
    lemma_nothing_owed_at_checkpoint(l.positions, l.yield_per_share);
    lemma_yield_keeps_valid(l, yield_amount);
    lemma_yield_shared_out(l, yield_amount);
    lemma_balances_are_principals_and_claims(after.positions, after.yield_per_share);
}

} // verus!
