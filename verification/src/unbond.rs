//! Unbonding and withdrawal.
//!
//! An unbond request burns derivative tokens and joins the open batch,
//! fee-adjusted while the exchange rate is depressed. When an epoch has
//! passed, the request that notices submits the whole batch: the engine
//! undelegates the batch's value at the current rate, snapshots that rate as
//! the batch's withdraw rate, and opens the next batch. Once a submitted
//! batch has waited out the unbonding period, each contributor can withdraw
//! their share once — the withdrawal consumes the wait-list entries it pays,
//! so a second withdrawal finds nothing and reports zero without error.

use vstd::prelude::*;

use crate::bytes::{lex_cmp, Cmp};
use crate::error::{Error, Reference, Violation};
use crate::fixed::{mul_floor, Decimal, DECIMAL_FRACTIONAL};
use crate::holders::clone_bytes;
use crate::hub::{rate_atto_of, CurrentBatch, HubStore, State, UnbondHistory, hub_wf};
use crate::msgs::OutMsg;
use crate::waitlist::{
    lemma_wl_contains_index, lemma_wl_sorted_remove, wl_get, wl_sorted, WaitEntry,
};

verus! {

/// Whether a full epoch has passed since the last batch submission, so the
/// open batch is due.
pub open spec fn epoch_due(s: HubStore, now: u64) -> bool {
    s.state.last_unbonded_time + s.parameters.epoch_period <= now
}

/// Whether the peg-recovery fee applies: the exchange rate sits below the
/// configured threshold.
pub open spec fn peg_fee_applies(s: HubStore) -> bool {
    s.state.exchange_rate.atto < s.parameters.er_threshold.atto
}

/// What an unbond request contributes to the open batch: the full amount,
/// or `amount x (1 - peg_recovery_fee)` rounded down while the fee applies.
pub open spec fn unbond_contribution(s: HubStore, amount: int) -> int {
    if peg_fee_applies(s) {
        mul_floor(amount, DECIMAL_FRACTIONAL - s.parameters.peg_recovery_fee.atto)
    } else {
        amount
    }
}

/// The arithmetic a batch submission needs: the undelegated value fits and
/// is covered by the recorded bond, the burn is covered by the issued
/// supply, the next batch id exists, and the recomputed rate fits.
pub open spec fn submit_fits(s: HubStore, new_req: int, burn_amount: int, total_issued: u128) -> bool {
    let rate = s.state.exchange_rate.atto as int;
    let undel = mul_floor(new_req, rate);
    let new_bond = s.state.total_bond_amount - undel;
    let supply = total_issued - burn_amount;
    &&& new_req * rate <= u128::MAX
    &&& undel <= s.state.total_bond_amount
    &&& burn_amount <= total_issued
    &&& s.current_batch.id + 1 <= u64::MAX
    &&& (new_bond != 0 && supply != 0 ==> new_bond * (DECIMAL_FRACTIONAL as int) <= u128::MAX)
}

/// The arithmetic a whole unbond request needs, the opportunistic batch
/// submission included.
pub open spec fn unbond_fits(
    s: HubStore,
    sender: Seq<u8>,
    amount: int,
    now: u64,
    total_issued: u128,
) -> bool {
    let contribution = unbond_contribution(s, amount);
    &&& (peg_fee_applies(s) ==> amount * (DECIMAL_FRACTIONAL
        - s.parameters.peg_recovery_fee.atto) <= u128::MAX)
    &&& s.current_batch.requested_with_fee + contribution <= u128::MAX
    &&& wl_get(s.unbond_waitlist.entries@, sender, s.current_batch.id) + contribution <= u128::MAX
    &&& (epoch_due(s, now) ==> submit_fits(
        s,
        s.current_batch.requested_with_fee + contribution,
        amount,
        total_issued,
    ))
}

/// The engine state a batch submission leaves behind: the batch's value at
/// the current rate moves out of the recorded bond, the submission time and
/// last-submitted id advance, and the rate is recomputed against the
/// post-burn supply.
pub open spec fn submitted_state(
    s: HubStore,
    new_req: int,
    burn_amount: int,
    total_issued: u128,
    now: u64,
) -> State {
    let rate = s.state.exchange_rate.atto as int;
    let undel = mul_floor(new_req, rate);
    let new_bond = s.state.total_bond_amount - undel;
    let supply = total_issued - burn_amount;
    State {
        exchange_rate: Decimal { atto: rate_atto_of(new_bond, supply) as u128 },
        total_bond_amount: new_bond as u128,
        last_unbonded_time: now,
        last_processed_batch: s.current_batch.id,
        ..s.state
    }
}

/// Join the open unbonding batch: record the fee-adjusted contribution
/// under (sender, batch), ask the token contract to burn the tokens, and —
/// when an epoch has passed since the last submission — submit the whole
/// batch for undelegation. Only the derivative-token contract may call
/// this, and never with a zero amount. Without a submission the exchange
/// rate is untouched.
pub fn execute_unbond(
    store: &mut HubStore,
    caller: &Vec<u8>,
    sender: &Vec<u8>,
    amount: u128,
    now: u64,
    total_issued: u128,
) -> (r: Result<Vec<OutMsg>, Error>)
    requires
        hub_wf(*old(store)),
    ensures
        hub_wf(*final(store)),
        r is Err ==> *final(store) == *old(store),
        amount == 0 ==> r == Err::<Vec<OutMsg>, Error>(
            Error::InvariantViolation(Violation::ZeroAmount),
        ),
        amount != 0 && old(store).config.token_contract is None ==> r == Err::<Vec<OutMsg>, Error>(
            Error::Uninitialized(Reference::Token),
        ),
        amount != 0 && old(store).config.token_contract is Some && caller@ != old(store).config.token_contract->0@ ==> r == Err::<Vec<OutMsg>, Error>(Error::Unauthorized),
        r is Ok <==> amount != 0 && old(store).config.token_contract is Some && caller@ == old(store).config.token_contract->0@ && unbond_fits(
            *old(store),
            sender@,
            amount as int,
            now,
            total_issued,
        ),
        r is Ok ==> wl_get(
            final(store).unbond_waitlist.entries@,
            sender@,
            old(store).current_batch.id,
        ) == wl_get(
            old(store).unbond_waitlist.entries@,
            sender@,
            old(store).current_batch.id,
        ) + unbond_contribution(*old(store), amount as int),
        r is Ok ==> forall|k2: Seq<u8>, b2: u64|
            !(k2 == sender@ && b2 == old(store).current_batch.id) ==> wl_get(
                final(store).unbond_waitlist.entries@,
                k2,
                b2,
            ) == wl_get(old(store).unbond_waitlist.entries@, k2, b2),
        r is Ok && !epoch_due(*old(store), now) ==> {
            &&& final(store).state == old(store).state
            &&& final(store).current_batch == (CurrentBatch {
                id: old(store).current_batch.id,
                requested_with_fee: (old(store).current_batch.requested_with_fee
                    + unbond_contribution(*old(store), amount as int)) as u128,
            })
            &&& final(store).unbond_history@ == old(store).unbond_history@
        },
        r is Ok && epoch_due(*old(store), now) ==> {
            let new_req = old(store).current_batch.requested_with_fee + unbond_contribution(
                *old(store),
                amount as int,
            );
            &&& final(store).state == submitted_state(
                *old(store),
                new_req,
                amount as int,
                total_issued,
                now,
            )
            &&& final(store).current_batch == (CurrentBatch {
                id: (old(store).current_batch.id + 1) as u64,
                requested_with_fee: 0,
            })
            &&& final(store).unbond_history@ == old(store).unbond_history@.push(
                (UnbondHistory {
                    batch_id: old(store).current_batch.id,
                    time: now,
                    amount: new_req as u128,
                    withdraw_rate: old(store).state.exchange_rate,
                    released: false,
                }),
            )
        },
        r matches Ok(m) ==> {
            let due = epoch_due(*old(store), now);
            let new_req = old(store).current_batch.requested_with_fee + unbond_contribution(
                *old(store),
                amount as int,
            );
            &&& m@.len() == (if due {
                3int
            } else {
                1int
            })
            &&& (due ==> (m@[0] matches OutMsg::Undelegate { amount: u } && u == mul_floor(
                new_req,
                old(store).state.exchange_rate.atto as int,
            )) && m@[1] is WithdrawAllRewards)
            &&& (m@[m@.len() - 1] matches OutMsg::BurnDerivative { amount: b } && b == amount)
        },
        r is Ok ==> final(store).config == old(store).config && final(store).parameters == old(store).parameters,
        !epoch_due(*old(store), now) ==> final(store).state.exchange_rate == old(store).state.exchange_rate,
{
    if amount == 0 {
        return Err(Error::InvariantViolation(Violation::ZeroAmount));
    }
    let authorized = match store.config.require_token() {
        Ok(t) => match lex_cmp(caller, t) {
            Cmp::Equal => true,
            _ => false,
        },
        Err(e) => {
            return Err(e);
        },
    };
    if !authorized {
        return Err(Error::Unauthorized);
    }
    let fee_applies = store.state.exchange_rate.lt(&store.parameters.er_threshold);
    let contribution: u128 = if fee_applies {
        let one_minus_fee = Decimal {
            atto: DECIMAL_FRACTIONAL - store.parameters.peg_recovery_fee.atto,
        };
        match one_minus_fee.mul_floor(amount) {
            Some(c) => c,
            None => {
                return Err(Error::InvariantViolation(Violation::Arithmetic));
            },
        }
    } else {
        amount
    };
    let new_req = match store.current_batch.requested_with_fee.checked_add(contribution) {
        Some(q) => q,
        None => {
            return Err(Error::InvariantViolation(Violation::Arithmetic));
        },
    };
    let existing = store.unbond_waitlist.get(sender, store.current_batch.id);
    let new_entry = match existing.checked_add(contribution) {
        Some(e) => e,
        None => {
            return Err(Error::InvariantViolation(Violation::Arithmetic));
        },
    };
    let due = match store.state.last_unbonded_time.checked_add(store.parameters.epoch_period) {
        Some(t) => t <= now,
        None => false,
    };
    if !due {
        let batch_id = store.current_batch.id;
        store.unbond_waitlist.set(sender, batch_id, new_entry);
        store.current_batch = CurrentBatch { id: batch_id, requested_with_fee: new_req };
        let mut msgs: Vec<OutMsg> = Vec::new();
        msgs.push(OutMsg::BurnDerivative { amount });
        proof {
            assert forall|i: int|
                0 <= i < store.unbond_waitlist.entries@.len() implies 1 <= (
            #[trigger] store.unbond_waitlist.entries@[i]).batch_id <= store.current_batch.id by {
                let e = store.unbond_waitlist.entries@[i];
                if e.batch_id != batch_id {
                    lemma_wl_contains_index(
                        old(store).unbond_waitlist.entries@,
                        e.address@,
                        e.batch_id,
                    );
                }
            }
        }
        Ok(msgs)
    } else {
        let undelegate_amount = match store.state.exchange_rate.mul_floor(new_req) {
            Some(u) => u,
            None => {
                return Err(Error::InvariantViolation(Violation::Arithmetic));
            },
        };
        let new_bond = match store.state.total_bond_amount.checked_sub(undelegate_amount) {
            Some(b) => b,
            None => {
                return Err(Error::InvariantViolation(Violation::Arithmetic));
            },
        };
        let supply = match total_issued.checked_sub(amount) {
            Some(s) => s,
            None => {
                return Err(Error::InvariantViolation(Violation::Arithmetic));
            },
        };
        let new_rate = if new_bond == 0 || supply == 0 {
            Decimal { atto: DECIMAL_FRACTIONAL }
        } else {
            match Decimal::from_ratio(new_bond, supply) {
                Some(d) => d,
                None => {
                    return Err(Error::InvariantViolation(Violation::Arithmetic));
                },
            }
        };
        let new_id = match store.current_batch.id.checked_add(1) {
            Some(i) => i,
            None => {
                return Err(Error::InvariantViolation(Violation::Arithmetic));
            },
        };
        let batch_id = store.current_batch.id;
        store.unbond_waitlist.set(sender, batch_id, new_entry);
        store.unbond_history.push(
            UnbondHistory {
                batch_id,
                time: now,
                amount: new_req,
                withdraw_rate: store.state.exchange_rate,
                released: false,
            },
        );
        store.current_batch = CurrentBatch { id: new_id, requested_with_fee: 0 };
        store.state = State {
            exchange_rate: new_rate,
            total_bond_amount: new_bond,
            last_unbonded_time: now,
            last_processed_batch: batch_id,
            ..store.state
        };
        let mut msgs: Vec<OutMsg> = Vec::new();
        msgs.push(OutMsg::Undelegate { amount: undelegate_amount });
        msgs.push(OutMsg::WithdrawAllRewards);
        msgs.push(OutMsg::BurnDerivative { amount });
        proof {
            assert forall|i: int|
                0 <= i < store.unbond_waitlist.entries@.len() implies 1 <= (
            #[trigger] store.unbond_waitlist.entries@[i]).batch_id <= store.current_batch.id by {
                let e = store.unbond_waitlist.entries@[i];
                if e.batch_id != batch_id {
                    lemma_wl_contains_index(
                        old(store).unbond_waitlist.entries@,
                        e.address@,
                        e.batch_id,
                    );
                }
            }
            assert(forall|i: int|
                0 <= i < store.unbond_history@.len() ==> (#[trigger] store.unbond_history@[i]).batch_id
                    == i + 1);
        }
        Ok(msgs)
    }
}

/// What the derivative-token contract forwards with a token deposit.
#[derive(Clone, Copy, PartialEq, Eq, Structural, Debug)]
pub enum Cw20HookMsg {
    /// Burn the deposited tokens and join the open unbonding batch.
    Unbond,
}

/// A deposit of derivative tokens, as the token contract reports it: who
/// sent them, how many, and what they asked for.
#[derive(Clone, Debug, PartialEq, Eq)]
pub struct Cw20ReceiveMsg {
    pub sender: Vec<u8>,
    pub amount: u128,
    pub msg: Cw20HookMsg,
}

/// Handle a deposit of derivative tokens: the only hook is an unbond
/// request on behalf of the original sender. The caller must be the
/// registered token contract.
pub fn receive_cw20(
    store: &mut HubStore,
    caller: &Vec<u8>,
    cw20_msg: &Cw20ReceiveMsg,
    now: u64,
    total_issued: u128,
) -> (r: Result<Vec<OutMsg>, Error>)
    requires
        hub_wf(*old(store)),
    ensures
        hub_wf(*final(store)),
        r is Err ==> *final(store) == *old(store),
        r is Ok <==> cw20_msg.amount != 0 && old(store).config.token_contract is Some && caller@
            == old(store).config.token_contract->0@ && unbond_fits(
            *old(store),
            cw20_msg.sender@,
            cw20_msg.amount as int,
            now,
            total_issued,
        ),
        r is Ok ==> wl_get(
            final(store).unbond_waitlist.entries@,
            cw20_msg.sender@,
            old(store).current_batch.id,
        ) == wl_get(
            old(store).unbond_waitlist.entries@,
            cw20_msg.sender@,
            old(store).current_batch.id,
        ) + unbond_contribution(*old(store), cw20_msg.amount as int),
        r is Ok ==> forall|k2: Seq<u8>, b2: u64|
            !(k2 == cw20_msg.sender@ && b2 == old(store).current_batch.id) ==> wl_get(
                final(store).unbond_waitlist.entries@,
                k2,
                b2,
            ) == wl_get(old(store).unbond_waitlist.entries@, k2, b2),
        r is Ok && !epoch_due(*old(store), now) ==> final(store).state == old(store).state
            && final(store).unbond_history@ == old(store).unbond_history@
            && final(store).current_batch == (CurrentBatch {
            id: old(store).current_batch.id,
            requested_with_fee: (old(store).current_batch.requested_with_fee
                + unbond_contribution(*old(store), cw20_msg.amount as int)) as u128,
        }),
        r is Ok && epoch_due(*old(store), now) ==> {
            let new_req = old(store).current_batch.requested_with_fee + unbond_contribution(
                *old(store),
                cw20_msg.amount as int,
            );
            &&& final(store).state == submitted_state(
                *old(store),
                new_req,
                cw20_msg.amount as int,
                total_issued,
                now,
            )
            &&& final(store).current_batch == (CurrentBatch {
                id: (old(store).current_batch.id + 1) as u64,
                requested_with_fee: 0,
            })
            &&& final(store).unbond_history@ == old(store).unbond_history@.push(
                (UnbondHistory {
                    batch_id: old(store).current_batch.id,
                    time: now,
                    amount: new_req as u128,
                    withdraw_rate: old(store).state.exchange_rate,
                    released: false,
                }),
            )
        },
        r matches Ok(m) ==> {
            let due = epoch_due(*old(store), now);
            let new_req = old(store).current_batch.requested_with_fee + unbond_contribution(
                *old(store),
                cw20_msg.amount as int,
            );
            &&& m@.len() == (if due {
                3int
            } else {
                1int
            })
            &&& (due ==> (m@[0] matches OutMsg::Undelegate { amount: u } && u == mul_floor(
                new_req,
                old(store).state.exchange_rate.atto as int,
            )) && m@[1] is WithdrawAllRewards)
            &&& (m@[m@.len() - 1] matches OutMsg::BurnDerivative { amount: b } && b
                == cw20_msg.amount)
        },
        r is Ok ==> final(store).config == old(store).config && final(store).parameters == old(
            store,
        ).parameters,
        !epoch_due(*old(store), now) ==> final(store).state.exchange_rate == old(store).state.exchange_rate,
{
    match cw20_msg.msg {
        Cw20HookMsg::Unbond => execute_unbond(
            store,
            caller,
            &cw20_msg.sender,
            cw20_msg.amount,
            now,
            total_issued,
        ),
    }
}

/// Whether a batch submitted at `time` has waited out the unbonding period.
pub open spec fn batch_matured(time: u64, unbonding_period: u64, now: u64) -> bool {
    time + unbonding_period <= now
}

/// Whether this wait-list entry pays out to `addr` now: it belongs to
/// `addr`, its batch has been submitted, and that batch has matured.
pub open spec fn withdrawable_entry(
    e: WaitEntry,
    addr: Seq<u8>,
    history: Seq<UnbondHistory>,
    unbonding_period: u64,
    now: u64,
) -> bool {
    &&& e.address@ == addr
    &&& 1 <= e.batch_id <= history.len()
    &&& batch_matured(history[e.batch_id - 1].time, unbonding_period, now)
}

/// What one wait-list entry pays: its fee-adjusted amount converted at its
/// batch's recorded withdraw rate, rounded down. Meaningful when the
/// entry's batch exists.
pub open spec fn entry_payout(e: WaitEntry, history: Seq<UnbondHistory>) -> int {
    mul_floor(e.amount as int, history[e.batch_id - 1].withdraw_rate.atto as int)
}

/// Everything `addr` can withdraw now: the payouts of its matured entries.
pub open spec fn spec_withdraw_sum(
    entries: Seq<WaitEntry>,
    history: Seq<UnbondHistory>,
    addr: Seq<u8>,
    unbonding_period: u64,
    now: u64,
) -> int
    decreases entries.len(),
{
    if entries.len() == 0 {
        0
    } else {
        spec_withdraw_sum(entries.drop_last(), history, addr, unbonding_period, now) + (
        if withdrawable_entry(entries.last(), addr, history, unbonding_period, now) {
            entry_payout(entries.last(), history)
        } else {
            0
        })
    }
}

/// Whether every matured entry's payout is representable.
pub open spec fn spec_withdraw_ok(
    entries: Seq<WaitEntry>,
    history: Seq<UnbondHistory>,
    addr: Seq<u8>,
    unbonding_period: u64,
    now: u64,
) -> bool
    decreases entries.len(),
{
    if entries.len() == 0 {
        true
    } else {
        spec_withdraw_ok(entries.drop_last(), history, addr, unbonding_period, now) && (
        withdrawable_entry(entries.last(), addr, history, unbonding_period, now)
            ==> entries.last().amount * history[entries.last().batch_id - 1].withdraw_rate.atto
            <= u128::MAX)
    }
}

/// A matured entry's payout is never negative.
proof fn lemma_entry_payout_nonneg(e: WaitEntry, history: Seq<UnbondHistory>)
    requires
        1 <= e.batch_id <= history.len(),
    ensures
        entry_payout(e, history) >= 0,
{
    let a = e.amount as int;
    let w = history[e.batch_id - 1].withdraw_rate.atto as int;
    assert(a * w >= 0) by (nonlinear_arith)
        requires
            a >= 0,
            w >= 0,
    ;
    vstd::arithmetic::div_mod::lemma_div_pos_is_pos(a * w, DECIMAL_FRACTIONAL as int);
}

/// Prefixes of the wait list never withdraw more than the whole list, and
/// never a negative amount.
proof fn lemma_withdraw_sum_prefix(
    entries: Seq<WaitEntry>,
    history: Seq<UnbondHistory>,
    addr: Seq<u8>,
    unbonding_period: u64,
    now: u64,
    i: int,
)
    requires
        0 <= i <= entries.len(),
    ensures
        0 <= spec_withdraw_sum(entries.take(i), history, addr, unbonding_period, now)
            <= spec_withdraw_sum(entries, history, addr, unbonding_period, now),
    decreases entries.len(),
{
    if entries.len() == 0 {
        assert(entries.take(i) =~= entries);
    } else if i == entries.len() {
        assert(entries.take(i) =~= entries);
        lemma_withdraw_sum_prefix(
            entries.drop_last(),
            history,
            addr,
            unbonding_period,
            now,
            entries.len() - 1,
        );
        assert(entries.drop_last().take(entries.len() - 1) =~= entries.drop_last());
        if withdrawable_entry(entries.last(), addr, history, unbonding_period, now) {
            lemma_entry_payout_nonneg(entries.last(), history);
        }
    } else {
        assert(entries.take(i) =~= entries.drop_last().take(i));
        lemma_withdraw_sum_prefix(entries.drop_last(), history, addr, unbonding_period, now, i);
        if withdrawable_entry(entries.last(), addr, history, unbonding_period, now) {
            lemma_entry_payout_nonneg(entries.last(), history);
        }
    }
}

/// If any prefix holds an unrepresentable payout, so does the whole list.
proof fn lemma_withdraw_ok_prefix(
    entries: Seq<WaitEntry>,
    history: Seq<UnbondHistory>,
    addr: Seq<u8>,
    unbonding_period: u64,
    now: u64,
    i: int,
)
    requires
        0 <= i <= entries.len(),
        spec_withdraw_ok(entries, history, addr, unbonding_period, now),
    ensures
        spec_withdraw_ok(entries.take(i), history, addr, unbonding_period, now),
    decreases entries.len(),
{
    if entries.len() == 0 || i == entries.len() {
        assert(entries.take(i) =~= entries);
    } else {
        assert(entries.take(i) =~= entries.drop_last().take(i));
        lemma_withdraw_ok_prefix(entries.drop_last(), history, addr, unbonding_period, now, i);
    }
}

/// A wait list with no withdrawable entry for `addr` withdraws zero.
proof fn lemma_withdraw_sum_zero(
    entries: Seq<WaitEntry>,
    history: Seq<UnbondHistory>,
    addr: Seq<u8>,
    unbonding_period: u64,
    now: u64,
)
    requires
        forall|i: int|
            0 <= i < entries.len() ==> !withdrawable_entry(
                #[trigger] entries[i],
                addr,
                history,
                unbonding_period,
                now,
            ),
    ensures
        spec_withdraw_sum(entries, history, addr, unbonding_period, now) == 0,
    decreases entries.len(),
{
    if entries.len() > 0 {
        assert(forall|i: int|
            0 <= i < entries.drop_last().len() ==> (#[trigger] entries.drop_last()[i])
                == entries[i]);
        lemma_withdraw_sum_zero(entries.drop_last(), history, addr, unbonding_period, now);
    }
}

/// Withdrawing consumes the entries it pays: a second withdrawal for the
/// same address at the same moment finds nothing and pays zero. The first
/// withdrawal only toggles released flags in the history, so any history
/// with the same length and submission times witnesses the same maturity.
pub proof fn lemma_withdraw_twice_zero(
    entries_before: Seq<WaitEntry>,
    history_before: Seq<UnbondHistory>,
    history_after: Seq<UnbondHistory>,
    addr: Seq<u8>,
    unbonding_period: u64,
    now: u64,
)
    requires
        history_after.len() == history_before.len(),
        forall|i: int|
            0 <= i < history_before.len() ==> (#[trigger] history_after[i]).time
                == history_before[i].time,
    ensures
        spec_withdraw_sum(
            entries_before.filter(
                |e: WaitEntry| !withdrawable_entry(e, addr, history_before, unbonding_period, now),
            ),
            history_after,
            addr,
            unbonding_period,
            now,
        ) == 0,
{
    let pred = |e: WaitEntry| !withdrawable_entry(e, addr, history_before, unbonding_period, now);
    let kept = entries_before.filter(pred);
    assert forall|i: int|
        0 <= i < kept.len() implies !withdrawable_entry(
        #[trigger] kept[i],
        addr,
        history_after,
        unbonding_period,
        now,
    ) by {
        entries_before.lemma_filter_pred(pred, i);
        assert(!withdrawable_entry(kept[i], addr, history_before, unbonding_period, now));
        if 1 <= kept[i].batch_id <= history_after.len() {
            assert(history_after[kept[i].batch_id - 1].time == history_before[kept[i].batch_id
                - 1].time);
        }
    }
    lemma_withdraw_sum_zero(kept, history_after, addr, unbonding_period, now);
}

/// Everything `addr` can withdraw now, computed without touching the store;
/// fails only when a payout or the total cannot be represented.
pub fn query_get_finished_amount(store: &HubStore, address: &Vec<u8>, now: u64) -> (r: Result<
    u128,
    Error,
>)
    requires
        hub_wf(*store),
    ensures
        ({
            let sum = spec_withdraw_sum(
                store.unbond_waitlist.entries@,
                store.unbond_history@,
                address@,
                store.parameters.unbonding_period,
                now,
            );
            &&& r is Ok <==> spec_withdraw_ok(
                store.unbond_waitlist.entries@,
                store.unbond_history@,
                address@,
                store.parameters.unbonding_period,
                now,
            ) && sum <= u128::MAX
            &&& (r matches Ok(v) ==> v == sum)
            &&& (r is Err ==> r == Err::<u128, Error>(
                Error::InvariantViolation(Violation::Arithmetic),
            ))
        }),
{
    let ghost entries = store.unbond_waitlist.entries@;
    let ghost history = store.unbond_history@;
    let ubp = store.parameters.unbonding_period;
    let n = store.unbond_waitlist.entries.len();
    let mut acc: u128 = 0;
    let mut i: usize = 0;
    while i < n
        invariant
            n == entries.len(),
            entries == store.unbond_waitlist.entries@,
            history == store.unbond_history@,
            ubp == store.parameters.unbonding_period,
            hub_wf(*store),
            i <= n,
            acc == spec_withdraw_sum(entries.take(i as int), history, address@, ubp, now),
            spec_withdraw_ok(entries.take(i as int), history, address@, ubp, now),
        decreases n - i,
    {
        proof {
            assert(entries.take(i as int + 1).drop_last() =~= entries.take(i as int));
            assert(entries.take(i as int + 1).last() == entries[i as int]);
        }
        let e = &store.unbond_waitlist.entries[i];
        let is_mine = match lex_cmp(&e.address, address) {
            Cmp::Equal => true,
            _ => false,
        };
        let in_history = 1 <= e.batch_id && e.batch_id <= store.unbond_history.len() as u64;
        if is_mine && in_history {
            let idx = (e.batch_id - 1) as usize;
            assert(idx < store.unbond_history@.len());
            let hist = store.unbond_history[idx];
            let is_matured = match hist.time.checked_add(ubp) {
                Some(t) => t <= now,
                None => false,
            };
            if is_matured {
                let payout = match hist.withdraw_rate.mul_floor(e.amount) {
                    Some(p) => p,
                    None => {
                        proof {
                            if spec_withdraw_ok(entries, history, address@, ubp, now) {
                                lemma_withdraw_ok_prefix(
                                    entries,
                                    history,
                                    address@,
                                    ubp,
                                    now,
                                    i as int + 1,
                                );
                            }
                        }
                        return Err(Error::InvariantViolation(Violation::Arithmetic));
                    },
                };
                acc = match acc.checked_add(payout) {
                    Some(a) => a,
                    None => {
                        proof {
                            lemma_withdraw_sum_prefix(
                                entries,
                                history,
                                address@,
                                ubp,
                                now,
                                i as int + 1,
                            );
                        }
                        return Err(Error::InvariantViolation(Violation::Arithmetic));
                    },
                };
            }
        }
        i = i + 1;
    }
    proof {
        assert(entries.take(n as int) =~= entries);
    }
    Ok(acc)
}

/// Everything `addr` can withdraw now, as served to the query.
pub fn query_withdrawable_unbonded(store: &HubStore, address: &Vec<u8>, now: u64) -> (r: Result<
    u128,
    Error,
>)
    requires
        hub_wf(*store),
    ensures
        ({
            let sum = spec_withdraw_sum(
                store.unbond_waitlist.entries@,
                store.unbond_history@,
                address@,
                store.parameters.unbonding_period,
                now,
            );
            &&& r is Ok <==> spec_withdraw_ok(
                store.unbond_waitlist.entries@,
                store.unbond_history@,
                address@,
                store.parameters.unbonding_period,
                now,
            ) && sum <= u128::MAX
            &&& (r matches Ok(v) ==> v == sum)
            &&& (r is Err ==> r == Err::<u128, Error>(
                Error::InvariantViolation(Violation::Arithmetic),
            ))
        }),
{
    query_get_finished_amount(store, address, now)
}

/// A withdrawal fits exactly when every payout and their total are
/// representable and the contract's observed balance covers the total.
pub open spec fn withdraw_fits(s: HubStore, addr: Seq<u8>, now: u64, hub_balance: u128) -> bool {
    let sum = spec_withdraw_sum(
        s.unbond_waitlist.entries@,
        s.unbond_history@,
        addr,
        s.parameters.unbonding_period,
        now,
    );
    &&& spec_withdraw_ok(
        s.unbond_waitlist.entries@,
        s.unbond_history@,
        addr,
        s.parameters.unbonding_period,
        now,
    )
    &&& sum <= u128::MAX
    &&& sum <= hub_balance
}

/// Pay the sender everything their matured batches owe them, at each
/// batch's recorded withdraw rate, and remove the wait-list entries that
/// were paid — the same entry can never pay twice; a repeated call finds
/// nothing left and reports zero, which is a normal result, not an error.
/// Matured batches are marked released and the balance snapshots are
/// reconciled against the observed contract balance. The exchange rate is
/// not touched.
pub fn execute_withdraw_unbonded(
    store: &mut HubStore,
    sender: &Vec<u8>,
    now: u64,
    hub_balance: u128,
) -> (r: Result<(u128, Vec<OutMsg>), Error>)
    requires
        hub_wf(*old(store)),
    ensures
        hub_wf(*final(store)),
        r is Err ==> *final(store) == *old(store) && r == Err::<(u128, Vec<OutMsg>), Error>(
            Error::InvariantViolation(Violation::Arithmetic),
        ),
        r is Ok <==> withdraw_fits(*old(store), sender@, now, hub_balance),
        r matches Ok(v) ==> v.0 == spec_withdraw_sum(
            old(store).unbond_waitlist.entries@,
            old(store).unbond_history@,
            sender@,
            old(store).parameters.unbonding_period,
            now,
        ),
        r matches Ok(v) ==> (v.0 > 0 ==> v.1@.len() == 1 && (v.1@[0] matches OutMsg::Send {
            recipient,
            denom,
            amount,
        } && recipient@ == sender@ && denom@ == old(store).parameters.underlying_coin_denom@
            && amount == v.0)) && (v.0 == 0 ==> v.1@.len() == 0),
        r is Ok ==> final(store).unbond_waitlist.entries@ == old(store).unbond_waitlist.entries@.filter(
            |e: WaitEntry|
                !withdrawable_entry(
                    e,
                    sender@,
                    old(store).unbond_history@,
                    old(store).parameters.unbonding_period,
                    now,
                ),
        ),
        r is Ok ==> final(store).unbond_history@.len() == old(store).unbond_history@.len() && (
        forall|i: int|
            0 <= i < old(store).unbond_history@.len() ==> (#[trigger] final(store).unbond_history@[i]) == (UnbondHistory {
                released: old(store).unbond_history@[i].released || batch_matured(
                    old(store).unbond_history@[i].time,
                    old(store).parameters.unbonding_period,
                    now,
                ),
                ..old(store).unbond_history@[i]
            })),
        r is Ok ==> final(store).state == (State {
            prev_hub_balance: (hub_balance - spec_withdraw_sum(
                old(store).unbond_waitlist.entries@,
                old(store).unbond_history@,
                sender@,
                old(store).parameters.unbonding_period,
                now,
            )) as u128,
            actual_unbonded_amount: (if hub_balance >= old(store).state.prev_hub_balance {
                (hub_balance - old(store).state.prev_hub_balance) as u128
            } else {
                0u128
            }),
            ..old(store).state
        }),
        r is Ok ==> final(store).config == old(store).config && final(store).parameters == old(store).parameters && final(store).current_batch == old(store).current_batch,
        final(store).state.exchange_rate == old(store).state.exchange_rate,
{
    let ubp = store.parameters.unbonding_period;
    let total = match query_get_finished_amount(store, sender, now) {
        Ok(t) => t,
        Err(e) => {
            return Err(e);
        },
    };
    if total > hub_balance {
        return Err(Error::InvariantViolation(Violation::Arithmetic));
    }
    let ghost orig = store.unbond_waitlist.entries@;
    let ghost history0 = store.unbond_history@;
    let ghost keep = |e: WaitEntry| !withdrawable_entry(e, sender@, history0, ubp, now);
    proof {
        reveal(Seq::filter);
        assert(orig.take(0).filter(keep) =~= Seq::<WaitEntry>::empty());
        assert(store.unbond_waitlist.entries@ =~= orig.take(0int).filter(keep) + orig.skip(0));
    }
    let mut i: usize = 0;
    let ghost mut j: int = 0;
    loop
        invariant
            0 <= j <= orig.len(),
            ubp == store.parameters.unbonding_period,
            i as int == orig.take(j).filter(keep).len(),
            store.unbond_waitlist.entries@ == orig.take(j).filter(keep) + orig.skip(j),
            keep == (|e: WaitEntry| !withdrawable_entry(e, sender@, history0, ubp, now)),
            wl_sorted(store.unbond_waitlist.entries@),
            forall|k: int|
                0 <= k < store.unbond_waitlist.entries@.len() ==> 1 <= (#[trigger] store.unbond_waitlist.entries@[k]).batch_id
                    <= store.current_batch.id,
            history0 == store.unbond_history@,
            store.config == old(store).config,
            store.parameters == old(store).parameters,
            store.state == old(store).state,
            store.current_batch == old(store).current_batch,
            hub_wf(*old(store)),
        ensures
            j == orig.len(),
            store.unbond_waitlist.entries@ == orig.take(j).filter(keep) + orig.skip(j),
            wl_sorted(store.unbond_waitlist.entries@),
            forall|k: int|
                0 <= k < store.unbond_waitlist.entries@.len() ==> 1 <= (#[trigger] store.unbond_waitlist.entries@[k]).batch_id
                    <= store.current_batch.id,
            history0 == store.unbond_history@,
            store.config == old(store).config,
            store.parameters == old(store).parameters,
            store.state == old(store).state,
            store.current_batch == old(store).current_batch,
        decreases orig.len() - j,
    {
        if i >= store.unbond_waitlist.entries.len() {
            proof {
                assert(orig.skip(j).len() == 0);
            }
            break ;
        }
        proof {
            assert(store.unbond_waitlist.entries@[i as int] == orig.skip(j)[0]);
            assert(orig.skip(j)[0] == orig[j]);
            assert(orig.take(j + 1).drop_last() =~= orig.take(j));
            assert(orig.take(j + 1).last() == orig[j]);
            reveal(Seq::filter);
        }
        let e = &store.unbond_waitlist.entries[i];
        let is_mine = match lex_cmp(&e.address, sender) {
            Cmp::Equal => true,
            _ => false,
        };
        let in_history = 1 <= e.batch_id && e.batch_id <= store.unbond_history.len() as u64;
        let mut withdrawable = false;
        if is_mine && in_history {
            let idx = (e.batch_id - 1) as usize;
            assert(idx < store.unbond_history@.len());
            let hist = store.unbond_history[idx];
            withdrawable = match hist.time.checked_add(ubp) {
                Some(t) => t <= now,
                None => false,
            };
        }
        proof {
            assert(withdrawable == !keep(orig[j]));
        }
        if withdrawable {
            let ghost before = store.unbond_waitlist.entries@;
            let _removed = store.unbond_waitlist.entries.remove(i);
            proof {
                lemma_wl_sorted_remove(before, i as int);
                before.remove_ensures(i as int);
                assert(store.unbond_waitlist.entries@ =~= orig.take(j + 1).filter(keep)
                    + orig.skip(j + 1));
                assert forall|k: int|
                    0 <= k < store.unbond_waitlist.entries@.len() implies 1 <= (
                #[trigger] store.unbond_waitlist.entries@[k]).batch_id
                    <= store.current_batch.id by {
                    if k < i {
                        assert(store.unbond_waitlist.entries@[k] == before[k]);
                    } else {
                        assert(store.unbond_waitlist.entries@[k] == before[k + 1]);
                    }
                }
                j = j + 1;
            }
        } else {
            proof {
                assert(orig.take(j + 1).filter(keep) =~= orig.take(j).filter(keep).push(orig[j]));
                assert(store.unbond_waitlist.entries@ =~= orig.take(j + 1).filter(keep)
                    + orig.skip(j + 1));
                j = j + 1;
            }
            i = i + 1;
        }
    }
    proof {
        assert(orig.take(orig.len() as int) =~= orig);
        assert(orig.skip(orig.len() as int).len() == 0);
        assert(store.unbond_waitlist.entries@ =~= orig.filter(keep));
    }
    let n = store.unbond_history.len();
    let mut k: usize = 0;
    while k < n
        invariant
            n == store.unbond_history@.len(),
            store.unbond_history@.len() == history0.len(),
            k <= n,
            ubp == store.parameters.unbonding_period,
            forall|kk: int|
                0 <= kk < k ==> (#[trigger] store.unbond_history@[kk]) == (UnbondHistory {
                    released: history0[kk].released || batch_matured(history0[kk].time, ubp, now),
                    ..history0[kk]
                }),
            forall|kk: int| k <= kk < n ==> (#[trigger] store.unbond_history@[kk]) == history0[kk],
            store.unbond_waitlist.entries@ == orig.filter(keep),
            wl_sorted(store.unbond_waitlist.entries@),
            forall|kk: int|
                0 <= kk < store.unbond_waitlist.entries@.len() ==> 1 <= (#[trigger] store.unbond_waitlist.entries@[kk]).batch_id
                    <= store.current_batch.id,
            store.config == old(store).config,
            store.parameters == old(store).parameters,
            store.state == old(store).state,
            store.current_batch == old(store).current_batch,
        decreases n - k,
    {
        let h = store.unbond_history[k];
        let is_matured = match h.time.checked_add(ubp) {
            Some(t) => t <= now,
            None => false,
        };
        if is_matured && !h.released {
            let hr = &mut store.unbond_history[k];
            hr.released = true;
        }
        k = k + 1;
    }
    let arrived = if hub_balance >= store.state.prev_hub_balance {
        hub_balance - store.state.prev_hub_balance
    } else {
        0
    };
    store.state = State {
        prev_hub_balance: hub_balance - total,
        actual_unbonded_amount: arrived,
        ..store.state
    };
    let mut msgs: Vec<OutMsg> = Vec::new();
    if total > 0 {
        msgs.push(
            OutMsg::Send {
                recipient: clone_bytes(sender),
                denom: clone_bytes(&store.parameters.underlying_coin_denom),
                amount: total,
            },
        );
    }
    Ok((total, msgs))
}

/// The sender's pending unbond requests, ascending by batch id, as
/// (batch id, fee-adjusted amount) pairs.
pub fn get_unbond_requests(store: &HubStore, address: &Vec<u8>) -> (r: Vec<(u64, u128)>)
    requires
        hub_wf(*store),
    ensures
        r@ == store.unbond_waitlist.entries@.filter(
            |e: WaitEntry| e.address@ == address@,
        ).map_values(|e: WaitEntry| (e.batch_id, e.amount)),
{
    let ghost entries = store.unbond_waitlist.entries@;
    let ghost pred = |e: WaitEntry| e.address@ == address@;
    let ghost f = |e: WaitEntry| (e.batch_id, e.amount);
    let n = store.unbond_waitlist.entries.len();
    let mut out: Vec<(u64, u128)> = Vec::new();
    proof {
        reveal(Seq::filter);
        assert(out@ =~= entries.take(0int).filter(pred).map_values(f));
    }
    let mut i: usize = 0;
    while i < n
        invariant
            n == entries.len(),
            entries == store.unbond_waitlist.entries@,
            i <= n,
            pred == (|e: WaitEntry| e.address@ == address@),
            f == (|e: WaitEntry| (e.batch_id, e.amount)),
            out@ == entries.take(i as int).filter(pred).map_values(f),
        decreases n - i,
    {
        proof {
            reveal(Seq::filter);
            assert(entries.take(i as int + 1).drop_last() =~= entries.take(i as int));
            assert(entries.take(i as int + 1).last() == entries[i as int]);
        }
        let e = &store.unbond_waitlist.entries[i];
        let is_mine = match lex_cmp(&e.address, address) {
            Cmp::Equal => true,
            _ => false,
        };
        if is_mine {
            out.push((e.batch_id, e.amount));
            proof {
                assert(out@ =~= entries.take(i as int + 1).filter(pred).map_values(f));
            }
        } else {
            proof {
                assert(out@ =~= entries.take(i as int + 1).filter(pred).map_values(f));
            }
        }
        i = i + 1;
    }
    proof {
        assert(entries.take(n as int) =~= entries);
    }
    out
}

/// The sender's pending unbond requests, as served to the unbond-requests
/// query.
pub fn query_unbond_requests(store: &HubStore, address: &Vec<u8>) -> (r: Vec<(u64, u128)>)
    requires
        hub_wf(*store),
    ensures
        r@ == store.unbond_waitlist.entries@.filter(
            |e: WaitEntry| e.address@ == address@,
        ).map_values(|e: WaitEntry| (e.batch_id, e.amount)),
{
    get_unbond_requests(store, address)
}

} // verus!
