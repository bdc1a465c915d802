//! The reward index ledger.
//!
//! Yield arrives at the ledger in the reward denomination; the ledger folds
//! each newly observed arrival into a global fixed-point index, and every
//! holder's share of it is `balance x (index delta)` for the span they held
//! that balance. Settling a holder moves its accrued share into its pending
//! rewards and stamps it with the current index, so balance changes and
//! claims interleave freely without losing or double-counting value.
//!
//! Conservation is stated by [`conserves`]: what holders have claimed plus
//! everything they are still owed accounts exactly for what the index
//! updates have distributed, up to the rounding remainder those updates
//! left behind. Every operation of this module preserves it.

use vstd::prelude::*;

use crate::bytes::{lex_cmp, lex_lt, Cmp};
use crate::error::{Error, Violation};
use crate::fixed::{lemma_ratio_bounds, ratio_atto, Decimal, DECIMAL_FRACTIONAL};
use crate::holders::{
    clone_bytes, indices_at_most, lemma_set_effect, lemma_sum_owed_index_raise, owed, sorted,
    spec_get, sum_balances, sum_owed, Holder, HolderMap, HolderResponse,
};
use crate::msgs::{Coin, OutMsg};

verus! {

/// Default page size of the holders query.
pub const DEFAULT_LIMIT: u32 = 10;

/// Largest page size the holders query will serve.
pub const MAX_LIMIT: u32 = 30;

/// Static configuration of the reward ledger: the hub contract that may
/// trigger index updates, and the denomination rewards are paid in.
#[derive(Clone, Debug, PartialEq, Eq)]
pub struct Config {
    pub hub_contract: Vec<u8>,
    pub reward_denom: Vec<u8>,
}

/// Addresses of the swap venues available for converting other
/// denominations into the reward denomination.
#[derive(Clone, Debug, PartialEq, Eq)]
pub struct SwapConfig {
    pub astroport_addr: Vec<u8>,
    pub phoenix_addr: Vec<u8>,
    pub terraswap_addr: Vec<u8>,
}

/// Mutable state of the reward ledger: the global reward index, the total
/// balance tracked across all holders, and the reward-denomination balance
/// observed at the last index update.
#[derive(Clone, Copy, PartialEq, Eq, Structural, Debug)]
pub struct State {
    pub global_index: Decimal,
    pub total_balance: u128,
    pub prev_reward_balance: u128,
}

/// The whole persisted state of the reward ledger, handed into every
/// operation by the host. The three ghost counters exist for the
/// conservation statement only: the integer rewards paid out by claims, the
/// integer rewards taken in by index updates, and the atto-units each index
/// update lost to rounding its ratio down.
pub struct RewardStore {
    pub config: Config,
    pub swap_config: SwapConfig,
    pub state: State,
    pub holders: HolderMap,
    pub claimed: Ghost<int>,
    pub distributed: Ghost<int>,
    pub rounding: Ghost<int>,
}

/// Conservation: the ledger tracks exactly the balances its holders have,
/// no stored index snapshot runs ahead of the global index, and — the heart
/// of the ledger — everything claimed so far plus everything still owed
/// accounts for everything distributed, exactly, up to the non-negative
/// rounding remainder the index updates left behind (all in atto-units).
pub open spec fn conserves(s: RewardStore) -> bool {
    &&& sorted(s.holders.entries@)
    &&& sum_balances(s.holders.entries@) == s.state.total_balance as int
    &&& indices_at_most(s.holders.entries@, s.state.global_index.atto as int)
    &&& 0 <= s.claimed@
    &&& 0 <= s.distributed@
    &&& 0 <= s.rounding@
    &&& s.claimed@ * (DECIMAL_FRACTIONAL as int) + sum_owed(
        s.holders.entries@,
        s.state.global_index.atto as int,
    ) + s.rounding@ == s.distributed@ * (DECIMAL_FRACTIONAL as int)
}

/// Set up a fresh ledger: zero index, zero tracked balance, nothing
/// observed, no holders.
pub fn instantiate(
    hub_contract: Vec<u8>,
    reward_denom: Vec<u8>,
    astroport_addr: Vec<u8>,
    phoenix_addr: Vec<u8>,
    terraswap_addr: Vec<u8>,
) -> (r: RewardStore)
    ensures
        r.config.hub_contract == hub_contract,
        r.config.reward_denom == reward_denom,
        r.swap_config.astroport_addr == astroport_addr,
        r.swap_config.phoenix_addr == phoenix_addr,
        r.swap_config.terraswap_addr == terraswap_addr,
        r.state == (State {
            global_index: Decimal { atto: 0 },
            total_balance: 0,
            prev_reward_balance: 0,
        }),
        r.holders.entries@.len() == 0,
        r.claimed@ == 0,
        r.distributed@ == 0,
        r.rounding@ == 0,
        conserves(r),
{
    RewardStore {
        config: Config { hub_contract, reward_denom },
        swap_config: SwapConfig { astroport_addr, phoenix_addr, terraswap_addr },
        state: State {
            global_index: Decimal { atto: 0 },
            total_balance: 0,
            prev_reward_balance: 0,
        },
        holders: HolderMap::new(),
        claimed: Ghost(0int),
        distributed: Ghost(0int),
        rounding: Ghost(0int),
    }
}

/// Rebuild a ledger from its persisted records, as a host loads it back
/// from storage. The conservation counters restart at zero: conservation is
/// stated over what happens from here on.
pub fn assemble(config: Config, swap_config: SwapConfig, state: State, holders: HolderMap) -> (r:
    RewardStore)
    ensures
        r.config == config,
        r.swap_config == swap_config,
        r.state == state,
        r.holders.entries@ == holders.entries@,
        r.claimed@ == 0,
        r.distributed@ == 0,
        r.rounding@ == 0,
{
    RewardStore {
        config,
        swap_config,
        state,
        holders,
        claimed: Ghost(0int),
        distributed: Ghost(0int),
        rounding: Ghost(0int),
    }
}

pub fn store_config(store: &mut RewardStore, config: Config)
    ensures
        final(store).config == config,
        final(store).swap_config == old(store).swap_config,
        final(store).state == old(store).state,
        final(store).holders.entries@ == old(store).holders.entries@,
        final(store).claimed == old(store).claimed,
        final(store).distributed == old(store).distributed,
        final(store).rounding == old(store).rounding,
{
    store.config = config;
}

pub fn read_config(store: &RewardStore) -> (r: &Config)
    ensures
        r == &store.config,
{
    &store.config
}

pub fn store_state(store: &mut RewardStore, state: State)
    ensures
        final(store).state == state,
        final(store).config == old(store).config,
        final(store).swap_config == old(store).swap_config,
        final(store).holders.entries@ == old(store).holders.entries@,
        final(store).claimed == old(store).claimed,
        final(store).distributed == old(store).distributed,
        final(store).rounding == old(store).rounding,
{
    store.state = state;
}

pub fn read_state(store: &RewardStore) -> (r: State)
    ensures
        r == store.state,
{
    store.state
}

pub fn store_holder(store: &mut RewardStore, address: &Vec<u8>, holder: Holder)
    requires
        sorted(old(store).holders.entries@),
    ensures
        sorted(final(store).holders.entries@),
        spec_get(final(store).holders.entries@, address@) == holder,
        forall|k2: Seq<u8>|
            k2 != address@ ==> spec_get(final(store).holders.entries@, k2) == spec_get(
                old(store).holders.entries@,
                k2,
            ),
        final(store).state == old(store).state,
        final(store).config == old(store).config,
        final(store).swap_config == old(store).swap_config,
        final(store).claimed == old(store).claimed,
        final(store).distributed == old(store).distributed,
        final(store).rounding == old(store).rounding,
{
    store.holders.set(address, holder);
}

/// The holder stored under this address, defaulting to the zero record for
/// an address never seen.
pub fn read_holder(store: &RewardStore, address: &Vec<u8>) -> (r: Holder)
    requires
        sorted(store.holders.entries@),
    ensures
        r == spec_get(store.holders.entries@, address@),
{
    store.holders.get(address)
}

/// A holder may be settled at `gi` exactly when its snapshot does not run
/// ahead of `gi` and the settled pending rewards fit the carrier.
pub open spec fn settle_fits(h: Holder, gi: int) -> bool {
    &&& h.index.atto <= gi
    &&& h.balance * (gi - h.index.atto) <= u128::MAX
    &&& h.pending_rewards.atto + h.balance * (gi - h.index.atto) <= u128::MAX
}

/// The holder after settling at `gi`: its accrued share
/// `balance x (gi - index)` moves into pending rewards and its snapshot
/// becomes `gi`. Meaningful when `settle_fits(h, gi)`.
pub open spec fn settled(h: Holder, gi: int) -> Holder {
    Holder {
        balance: h.balance,
        index: Decimal { atto: gi as u128 },
        pending_rewards: Decimal {
            atto: (h.pending_rewards.atto + h.balance * (gi - h.index.atto)) as u128,
        },
    }
}

/// Settle a holder against the current global index: credit its pending
/// rewards with `balance x (global_index - index)` — exactly its share of
/// everything distributed since its last settlement — and stamp it with the
/// index. What the holder is owed does not change.
pub fn settle(holder: &mut Holder, global_index: Decimal) -> (r: Result<(), Error>)
    ensures
        settle_fits(*old(holder), global_index.atto as int) ==> r is Ok && *final(holder)
            == settled(*old(holder), global_index.atto as int),
        !settle_fits(*old(holder), global_index.atto as int) ==> r == Err::<(), Error>(
            Error::InvariantViolation(Violation::Arithmetic),
        ) && *final(holder) == *old(holder),
        r is Ok ==> owed(*final(holder), global_index.atto as int) == owed(
            *old(holder),
            global_index.atto as int,
        ),
{
    let delta = match global_index.checked_sub(holder.index) {
        Some(d) => d,
        None => {
            return Err(Error::InvariantViolation(Violation::Arithmetic));
        },
    };
    let gain = match delta.mul_int_exact(holder.balance) {
        Some(g) => g,
        None => {
            return Err(Error::InvariantViolation(Violation::Arithmetic));
        },
    };
    let pending = match holder.pending_rewards.checked_add(gain) {
        Some(p) => p,
        None => {
            return Err(Error::InvariantViolation(Violation::Arithmetic));
        },
    };
    holder.pending_rewards = pending;
    holder.index = global_index;
    proof {
        let gi = global_index.atto as int;
        let h0 = *old(holder);
        assert(holder.balance * (gi - gi) == 0) by (nonlinear_arith);
    }
    Ok(())
}

/// An index update over observed balance `bal` fits exactly when the
/// observed balance has not shrunk, the scaled arrival fits the carrier,
/// and the raised index fits the carrier.
pub open spec fn update_index_fits(s: RewardStore, bal: int) -> bool {
    &&& s.state.prev_reward_balance <= bal
    &&& (bal - s.state.prev_reward_balance) * (DECIMAL_FRACTIONAL as int) <= u128::MAX
    &&& s.state.global_index.atto + ratio_atto(
        bal - s.state.prev_reward_balance,
        s.state.total_balance as int,
    ) <= u128::MAX
}

/// Fold newly arrived rewards into the global index. Only the hub contract
/// may trigger it. The arrival is the difference between the observed
/// reward-denomination balance and the balance recorded at the last update;
/// the index rises by arrival / total tracked balance, rounded down to an
/// atto-unit, and never falls.
pub fn execute_update_global_index(
    store: &mut RewardStore,
    caller: &Vec<u8>,
    reward_balance: u128,
) -> (r: Result<(), Error>)
    requires
        sorted(old(store).holders.entries@),
    ensures
        sorted(final(store).holders.entries@),
        r is Err ==> *final(store) == *old(store),
        caller@ != old(store).config.hub_contract@ ==> r == Err::<(), Error>(Error::Unauthorized),
        caller@ == old(store).config.hub_contract@ && old(store).state.total_balance == 0 ==> r
            == Err::<(), Error>(Error::InvariantViolation(Violation::NoAssetBonded)),
        caller@ == old(store).config.hub_contract@ && old(store).state.total_balance != 0
            && !update_index_fits(*old(store), reward_balance as int) ==> r == Err::<(), Error>(
            Error::InvariantViolation(Violation::Arithmetic),
        ),
        r is Ok <==> caller@ == old(store).config.hub_contract@ && old(store).state.total_balance
            != 0 && update_index_fits(*old(store), reward_balance as int),
        r is Ok ==> final(store).state == (State {
            global_index: Decimal {
                atto: (old(store).state.global_index.atto + ratio_atto(
                    reward_balance - old(store).state.prev_reward_balance,
                    old(store).state.total_balance as int,
                )) as u128,
            },
            total_balance: old(store).state.total_balance,
            prev_reward_balance: reward_balance,
        }),
        r is Ok ==> final(store).holders.entries@ == old(store).holders.entries@
            && final(store).config == old(store).config
            && final(store).swap_config == old(store).swap_config
            && final(store).claimed == old(store).claimed
            && final(store).distributed@ == old(store).distributed@ + reward_balance
            - old(store).state.prev_reward_balance,
        r is Ok ==> final(store).rounding@ == old(store).rounding@ + (reward_balance - old(
            store,
        ).state.prev_reward_balance) * (DECIMAL_FRACTIONAL as int) - old(
            store,
        ).state.total_balance * ratio_atto(
            reward_balance - old(store).state.prev_reward_balance,
            old(store).state.total_balance as int,
        ),
        r is Ok ==> final(store).rounding@ - old(store).rounding@ < old(
            store,
        ).state.total_balance,
        final(store).state.global_index.atto >= old(store).state.global_index.atto,
        conserves(*old(store)) ==> conserves(*final(store)),
{
    match lex_cmp(caller, &store.config.hub_contract) {
        Cmp::Equal => {},
        _ => {
            return Err(Error::Unauthorized);
        },
    }
    if store.state.total_balance == 0 {
        return Err(Error::InvariantViolation(Violation::NoAssetBonded));
    }
    let arrived = match reward_balance.checked_sub(store.state.prev_reward_balance) {
        Some(a) => a,
        None => {
            return Err(Error::InvariantViolation(Violation::Arithmetic));
        },
    };
    let ratio = match Decimal::from_ratio(arrived, store.state.total_balance) {
        Some(d) => d,
        None => {
            return Err(Error::InvariantViolation(Violation::Arithmetic));
        },
    };
    let new_index = match store.state.global_index.checked_add(ratio) {
        Some(g) => g,
        None => {
            return Err(Error::InvariantViolation(Violation::Arithmetic));
        },
    };
    let ghost g0 = store.state.global_index.atto as int;
    store.state = State {
        global_index: new_index,
        total_balance: store.state.total_balance,
        prev_reward_balance: reward_balance,
    };
    store.distributed = Ghost(store.distributed@ + arrived as int);
    store.rounding = Ghost(
        store.rounding@ + arrived * (DECIMAL_FRACTIONAL as int) - store.state.total_balance
            * ratio_atto(arrived as int, store.state.total_balance as int),
    );
    proof {
        let s = DECIMAL_FRACTIONAL as int;
        let tb = store.state.total_balance as int;
        let g1 = store.state.global_index.atto as int;
        lemma_ratio_bounds(arrived as int, tb);
        assert(g1 - g0 == ratio_atto(arrived as int, tb));
        if conserves(*old(store)) {
            let e = store.holders.entries@;
            lemma_sum_owed_index_raise(e, g0, g1);
            assert(tb * (g1 - g0) <= arrived * s);
            let d0 = old(store).distributed@;
            assert((d0 + arrived) * s == d0 * s + arrived * s) by (nonlinear_arith);
        }
    }
    Ok(())
}

/// A balance increase fits exactly when the holder settles and neither its
/// balance nor the total balance overflows.
pub open spec fn increase_fits(s: RewardStore, address: Seq<u8>, amount: int) -> bool {
    let h0 = spec_get(s.holders.entries@, address);
    &&& settle_fits(h0, s.state.global_index.atto as int)
    &&& h0.balance + amount <= u128::MAX
    &&& s.state.total_balance + amount <= u128::MAX
}

/// The holder after a balance increase: settled first, then raised.
pub open spec fn increased_holder(s: RewardStore, address: Seq<u8>, amount: int) -> Holder {
    let h1 = settled(spec_get(s.holders.entries@, address), s.state.global_index.atto as int);
    Holder {
        balance: (h1.balance + amount) as u128,
        index: h1.index,
        pending_rewards: h1.pending_rewards,
    }
}

/// Mirror a mint or incoming transfer of derivative tokens: settle the
/// holder, then raise its balance and the total balance by `amount`. Only
/// the derivative-token contract may call this.
pub fn execute_increase_balance(
    store: &mut RewardStore,
    caller: &Vec<u8>,
    token_contract: &Vec<u8>,
    address: &Vec<u8>,
    amount: u128,
) -> (r: Result<(), Error>)
    requires
        sorted(old(store).holders.entries@),
    ensures
        sorted(final(store).holders.entries@),
        r is Err ==> *final(store) == *old(store),
        caller@ != token_contract@ ==> r == Err::<(), Error>(Error::Unauthorized),
        caller@ == token_contract@ && !increase_fits(*old(store), address@, amount as int) ==> r
            == Err::<(), Error>(Error::InvariantViolation(Violation::Arithmetic)),
        r is Ok <==> caller@ == token_contract@ && increase_fits(
            *old(store),
            address@,
            amount as int,
        ),
        r is Ok ==> spec_get(final(store).holders.entries@, address@) == increased_holder(
            *old(store),
            address@,
            amount as int,
        ),
        r is Ok ==> forall|k2: Seq<u8>|
            k2 != address@ ==> spec_get(final(store).holders.entries@, k2) == spec_get(
                old(store).holders.entries@,
                k2,
            ),
        r is Ok ==> final(store).state == (State {
            global_index: old(store).state.global_index,
            total_balance: (old(store).state.total_balance + amount) as u128,
            prev_reward_balance: old(store).state.prev_reward_balance,
        }),
        r is Ok ==> final(store).config == old(store).config
            && final(store).swap_config == old(store).swap_config
            && final(store).claimed == old(store).claimed
            && final(store).distributed == old(store).distributed
            && final(store).rounding == old(store).rounding,
        conserves(*old(store)) ==> conserves(*final(store)),
{
    match lex_cmp(caller, token_contract) {
        Cmp::Equal => {},
        _ => {
            return Err(Error::Unauthorized);
        },
    }
    let mut holder = store.holders.get(address);
    match settle(&mut holder, store.state.global_index) {
        Ok(()) => {},
        Err(e) => {
            return Err(e);
        },
    }
    let new_balance = match holder.balance.checked_add(amount) {
        Some(b) => b,
        None => {
            return Err(Error::InvariantViolation(Violation::Arithmetic));
        },
    };
    let new_total = match store.state.total_balance.checked_add(amount) {
        Some(t) => t,
        None => {
            return Err(Error::InvariantViolation(Violation::Arithmetic));
        },
    };
    holder.balance = new_balance;
    let ghost e0 = store.holders.entries@;
    store.holders.set(address, holder);
    store.state = State {
        global_index: store.state.global_index,
        total_balance: new_total,
        prev_reward_balance: store.state.prev_reward_balance,
    };
    proof {
        let gi = store.state.global_index.atto as int;
        let h0 = spec_get(e0, address@);
        lemma_set_effect(e0, store.holders.entries@, address@, holder, gi);
        assert(owed(holder, gi) == owed(h0, gi)) by {
            assert(holder.balance * (gi - gi) == 0) by (nonlinear_arith);
            assert(h0.balance * (gi - gi) == 0) by (nonlinear_arith);
        }
    }
    Ok(())
}

/// A balance decrease fits exactly when the holder settles and the total
/// balance does not underflow. That the holder's own balance covers the
/// decrease is checked separately and reported with the available amount.
pub open spec fn decrease_fits(s: RewardStore, address: Seq<u8>, amount: int) -> bool {
    &&& settle_fits(spec_get(s.holders.entries@, address), s.state.global_index.atto as int)
    &&& amount <= s.state.total_balance
}

/// The holder after a balance decrease: settled first, then lowered.
pub open spec fn decreased_holder(s: RewardStore, address: Seq<u8>, amount: int) -> Holder {
    let h1 = settled(spec_get(s.holders.entries@, address), s.state.global_index.atto as int);
    Holder {
        balance: (h1.balance - amount) as u128,
        index: h1.index,
        pending_rewards: h1.pending_rewards,
    }
}

/// Mirror a burn or outgoing transfer of derivative tokens: settle the
/// holder, then lower its balance and the total balance by `amount`. A
/// decrease beyond the holder's tracked balance is refused, not clamped.
/// Only the derivative-token contract may call this.
pub fn execute_decrease_balance(
    store: &mut RewardStore,
    caller: &Vec<u8>,
    token_contract: &Vec<u8>,
    address: &Vec<u8>,
    amount: u128,
) -> (r: Result<(), Error>)
    requires
        sorted(old(store).holders.entries@),
    ensures
        sorted(final(store).holders.entries@),
        r is Err ==> *final(store) == *old(store),
        caller@ != token_contract@ ==> r == Err::<(), Error>(Error::Unauthorized),
        caller@ == token_contract@ && amount > spec_get(
            old(store).holders.entries@,
            address@,
        ).balance ==> r == Err::<(), Error>(
            Error::InvariantViolation(
                (Violation::DecreaseExceedsBalance {
                    available: spec_get(old(store).holders.entries@, address@).balance,
                }),
            ),
        ),
        caller@ == token_contract@ && amount <= spec_get(
            old(store).holders.entries@,
            address@,
        ).balance && !decrease_fits(*old(store), address@, amount as int) ==> r == Err::<
            (),
            Error,
        >(Error::InvariantViolation(Violation::Arithmetic)),
        r is Ok <==> caller@ == token_contract@ && amount <= spec_get(
            old(store).holders.entries@,
            address@,
        ).balance && decrease_fits(*old(store), address@, amount as int),
        r is Ok ==> spec_get(final(store).holders.entries@, address@) == decreased_holder(
            *old(store),
            address@,
            amount as int,
        ),
        r is Ok ==> forall|k2: Seq<u8>|
            k2 != address@ ==> spec_get(final(store).holders.entries@, k2) == spec_get(
                old(store).holders.entries@,
                k2,
            ),
        r is Ok ==> final(store).state == (State {
            global_index: old(store).state.global_index,
            total_balance: (old(store).state.total_balance - amount) as u128,
            prev_reward_balance: old(store).state.prev_reward_balance,
        }),
        r is Ok ==> final(store).config == old(store).config
            && final(store).swap_config == old(store).swap_config
            && final(store).claimed == old(store).claimed
            && final(store).distributed == old(store).distributed
            && final(store).rounding == old(store).rounding,
        conserves(*old(store)) ==> conserves(*final(store)),
{
    match lex_cmp(caller, token_contract) {
        Cmp::Equal => {},
        _ => {
            return Err(Error::Unauthorized);
        },
    }
    let mut holder = store.holders.get(address);
    if amount > holder.balance {
        return Err(
            Error::InvariantViolation(
                Violation::DecreaseExceedsBalance { available: holder.balance },
            ),
        );
    }
    match settle(&mut holder, store.state.global_index) {
        Ok(()) => {},
        Err(e) => {
            return Err(e);
        },
    }
    let new_total = match store.state.total_balance.checked_sub(amount) {
        Some(t) => t,
        None => {
            return Err(Error::InvariantViolation(Violation::Arithmetic));
        },
    };
    holder.balance = holder.balance - amount;
    let ghost e0 = store.holders.entries@;
    store.holders.set(address, holder);
    store.state = State {
        global_index: store.state.global_index,
        total_balance: new_total,
        prev_reward_balance: store.state.prev_reward_balance,
    };
    proof {
        let gi = store.state.global_index.atto as int;
        let h0 = spec_get(e0, address@);
        lemma_set_effect(e0, store.holders.entries@, address@, holder, gi);
        assert(owed(holder, gi) == owed(h0, gi)) by {
            assert(holder.balance * (gi - gi) == 0) by (nonlinear_arith);
            assert(h0.balance * (gi - gi) == 0) by (nonlinear_arith);
        }
    }
    Ok(())
}

/// What a claim by this holder pays out: the integer part of everything it
/// is owed at the current index.
pub open spec fn claim_amount(s: RewardStore, holder_addr: Seq<u8>) -> int {
    owed(spec_get(s.holders.entries@, holder_addr), s.state.global_index.atto as int) / (
    DECIMAL_FRACTIONAL as int)
}

/// A claim fits exactly when the holder settles and the recorded reward
/// balance covers the payout.
pub open spec fn claim_fits(s: RewardStore, holder_addr: Seq<u8>) -> bool {
    &&& settle_fits(spec_get(s.holders.entries@, holder_addr), s.state.global_index.atto as int)
    &&& claim_amount(s, holder_addr) <= s.state.prev_reward_balance
}

/// Pay out the caller's rewards: settle, transfer the integer part of the
/// pending rewards to the recipient (the caller when none is named), and
/// keep only the fractional remainder pending. A zero payout is still a
/// (no-op) transfer, not an error.
pub fn execute_claim_rewards(
    store: &mut RewardStore,
    caller: &Vec<u8>,
    recipient: Option<Vec<u8>>,
) -> (r: Result<OutMsg, Error>)
    requires
        sorted(old(store).holders.entries@),
    ensures
        sorted(final(store).holders.entries@),
        r is Err ==> *final(store) == *old(store),
        r is Err ==> r == Err::<OutMsg, Error>(Error::InvariantViolation(Violation::Arithmetic)),
        r is Ok <==> claim_fits(*old(store), caller@),
        r is Ok ==> (r matches Ok(m) && m matches OutMsg::Send { recipient: rc, denom: dn, amount: am }
            && am == claim_amount(*old(store), caller@)
            && dn@ == old(store).config.reward_denom@
            && rc@ == (match recipient {
            Some(v) => v@,
            None => caller@,
        })),
        r is Ok ==> spec_get(final(store).holders.entries@, caller@) == (Holder {
            balance: spec_get(old(store).holders.entries@, caller@).balance,
            index: old(store).state.global_index,
            pending_rewards: Decimal {
                atto: (owed(
                    spec_get(old(store).holders.entries@, caller@),
                    old(store).state.global_index.atto as int,
                ) % (DECIMAL_FRACTIONAL as int)) as u128,
            },
        }),
        r is Ok ==> forall|k2: Seq<u8>|
            k2 != caller@ ==> spec_get(final(store).holders.entries@, k2) == spec_get(
                old(store).holders.entries@,
                k2,
            ),
        r is Ok ==> final(store).state == (State {
            global_index: old(store).state.global_index,
            total_balance: old(store).state.total_balance,
            prev_reward_balance: (old(store).state.prev_reward_balance - claim_amount(
                *old(store),
                caller@,
            )) as u128,
        }),
        r is Ok ==> final(store).config == old(store).config
            && final(store).swap_config == old(store).swap_config
            && final(store).distributed == old(store).distributed
            && final(store).rounding == old(store).rounding
            && final(store).claimed@ == old(store).claimed@ + claim_amount(*old(store), caller@),
        conserves(*old(store)) ==> conserves(*final(store)),
{
    let mut holder = store.holders.get(caller);
    let ghost h0 = holder;
    match settle(&mut holder, store.state.global_index) {
        Ok(()) => {},
        Err(e) => {
            return Err(e);
        },
    }
    let all = holder.pending_rewards;
    let rewards = all.floor_u128();
    let remainder = all.fract();
    proof {
        let gi = store.state.global_index.atto as int;
        vstd::arithmetic::div_mod::lemma_fundamental_div_mod(owed(h0, gi), DECIMAL_FRACTIONAL as int);
        assert(owed(h0, gi) == all.atto) by {
            assert(h0.balance * (gi - gi) == 0) by (nonlinear_arith);
        }
    }
    let new_prev = match store.state.prev_reward_balance.checked_sub(rewards) {
        Some(p) => p,
        None => {
            return Err(Error::InvariantViolation(Violation::Arithmetic));
        },
    };
    holder.pending_rewards = remainder;
    let ghost e0 = store.holders.entries@;
    store.holders.set(caller, holder);
    store.state = State {
        global_index: store.state.global_index,
        total_balance: store.state.total_balance,
        prev_reward_balance: new_prev,
    };
    store.claimed = Ghost(store.claimed@ + rewards as int);
    let recipient_addr = match recipient {
        Some(v) => v,
        None => clone_bytes(caller),
    };
    let denom = clone_bytes(&store.config.reward_denom);
    proof {
        let s = DECIMAL_FRACTIONAL as int;
        let gi = store.state.global_index.atto as int;
        lemma_set_effect(e0, store.holders.entries@, caller@, holder, gi);
        assert(owed(holder, gi) == remainder.atto) by {
            assert(holder.balance * (gi - gi) == 0) by (nonlinear_arith);
        }
        if conserves(*old(store)) {
            let c0 = old(store).claimed@;
            assert((c0 + rewards) * s == c0 * s + rewards * s) by (nonlinear_arith);
            assert(rewards * s == s * (all.atto as int / s)) by (nonlinear_arith)
                requires
                    rewards == all.atto as int / s,
            ;
            vstd::arithmetic::div_mod::lemma_fundamental_div_mod(all.atto as int, s);
        }
    }
    Ok(OutMsg::Send { recipient: recipient_addr, denom, amount: rewards })
}

/// A coin the swap operation converts: not already the reward denomination,
/// above the dust threshold (a zero amount is dust), and some venue can
/// route it.
pub open spec fn keep_coin(c: Coin, reward_denom: Seq<u8>, routable: Seq<Vec<u8>>) -> bool {
    &&& c.denom@ != reward_denom
    &&& (exists|i: int| 0 <= i < routable.len() && routable[i]@ == c.denom@)
    &&& c.amount > 0
}

/// Whether some venue-supported denomination equals `d`.
fn denom_routable(swappable_denoms: &Vec<Vec<u8>>, d: &Vec<u8>) -> (r: bool)
    ensures
        r == exists|i: int| 0 <= i < swappable_denoms@.len() && swappable_denoms@[i]@ == d@,
{
    let n = swappable_denoms.len();
    let mut i: usize = 0;
    while i < n
        invariant
            n == swappable_denoms@.len(),
            i <= n,
            forall|j: int| 0 <= j < i ==> (#[trigger] swappable_denoms@[j]@) != d@,
        decreases n - i,
    {
        match lex_cmp(&swappable_denoms[i], d) {
            Cmp::Equal => {
                return true;
            },
            _ => {},
        }
        i = i + 1;
    }
    false
}

/// Plan the conversion of held balances into the reward denomination: one
/// swap request per held coin that [`keep_coin`] accepts, in the order the
/// balances were observed. Best effort by design: a coin no venue routes is
/// simply left for a later call.
pub fn execute_swap(
    store: &RewardStore,
    balances: &Vec<Coin>,
    swappable_denoms: &Vec<Vec<u8>>,
) -> (r: Vec<OutMsg>)
    ensures
        ({
            let kept = balances@.filter(
                |c: Coin| keep_coin(c, store.config.reward_denom@, swappable_denoms@),
            );
            &&& r@.len() == kept.len()
            &&& forall|j: int|
                0 <= j < r@.len() ==> ((#[trigger] r@[j]) matches OutMsg::Swap {
                    offer_denom,
                    ask_denom,
                    amount,
                } && offer_denom@ == kept[j].denom@ && ask_denom@ == store.config.reward_denom@
                    && amount == kept[j].amount)
        }),
{
    let ghost pred = |c: Coin| keep_coin(c, store.config.reward_denom@, swappable_denoms@);
    let mut out: Vec<OutMsg> = Vec::new();
    let n = balances.len();
    proof {
        reveal(Seq::filter);
        assert(balances@.take(0).filter(pred).len() == 0);
    }
    let mut i: usize = 0;
    while i < n
        invariant
            n == balances@.len(),
            i <= n,
            pred == (|c: Coin| keep_coin(c, store.config.reward_denom@, swappable_denoms@)),
            out@.len() == balances@.take(i as int).filter(pred).len(),
            forall|j: int|
                0 <= j < out@.len() ==> ((#[trigger] out@[j]) matches OutMsg::Swap {
                    offer_denom,
                    ask_denom,
                    amount,
                } && offer_denom@ == balances@.take(i as int).filter(pred)[j].denom@ && ask_denom@
                    == store.config.reward_denom@ && amount == balances@.take(i as int).filter(
                    pred,
                )[j].amount),
        decreases n - i,
    {
        let c = &balances[i];
        let not_reward = match lex_cmp(&c.denom, &store.config.reward_denom) {
            Cmp::Equal => false,
            _ => true,
        };
        let keep = not_reward && c.amount > 0 && denom_routable(swappable_denoms, &c.denom);
        proof {
            reveal(Seq::filter);
            assert(balances@.take(i as int + 1).drop_last() =~= balances@.take(i as int));
            assert(balances@.take(i as int + 1).last() == balances@[i as int]);
            assert(keep == pred(balances@[i as int]));
        }
        if keep {
            out.push(
                OutMsg::Swap {
                    offer_denom: clone_bytes(&c.denom),
                    ask_denom: clone_bytes(&store.config.reward_denom),
                    amount: c.amount,
                },
            );
        }
        i = i + 1;
    }
    proof {
        assert(balances@.take(n as int) =~= balances@);
    }
    out
}

/// Everything the holder would be paid if it claimed now: the integer part
/// of its pending rewards plus its unsettled share of the current index.
pub fn query_accrued_rewards(store: &RewardStore, address: &Vec<u8>) -> (r: Result<u128, Error>)
    requires
        sorted(store.holders.entries@),
    ensures
        ({
            let h0 = spec_get(store.holders.entries@, address@);
            let gi = store.state.global_index.atto as int;
            &&& settle_fits(h0, gi) ==> r == Ok::<u128, Error>(
                (owed(h0, gi) / (DECIMAL_FRACTIONAL as int)) as u128,
            )
            &&& !settle_fits(h0, gi) ==> r == Err::<u128, Error>(
                Error::InvariantViolation(Violation::Arithmetic),
            )
        }),
{
    let mut holder = store.holders.get(address);
    let ghost h0 = holder;
    match settle(&mut holder, store.state.global_index) {
        Ok(()) => {},
        Err(e) => {
            return Err(e);
        },
    }
    proof {
        let gi = store.state.global_index.atto as int;
        assert(owed(h0, gi) == holder.pending_rewards.atto) by {
            assert(h0.balance * (gi - gi) == 0) by (nonlinear_arith);
        }
    }
    Ok(holder.pending_rewards.floor_u128())
}

/// The stored record of one holder, as a query row; an address never seen
/// reports the zero record.
pub fn query_holder(store: &RewardStore, address: &Vec<u8>) -> (r: HolderResponse)
    requires
        sorted(store.holders.entries@),
    ensures
        r.address@ == address@,
        r.balance == spec_get(store.holders.entries@, address@).balance,
        r.index == spec_get(store.holders.entries@, address@).index,
        r.pending_rewards == spec_get(store.holders.entries@, address@).pending_rewards,
{
    let holder = store.holders.get(address);
    HolderResponse {
        address: clone_bytes(address),
        balance: holder.balance,
        index: holder.index,
        pending_rewards: holder.pending_rewards,
    }
}

/// The page size a holders query serves for a requested limit.
pub open spec fn page_limit(limit: Option<u32>) -> int {
    let l = match limit {
        Some(l) => l as int,
        None => DEFAULT_LIMIT as int,
    };
    if l > MAX_LIMIT as int {
        MAX_LIMIT as int
    } else {
        l
    }
}

/// Whether a stored address lies past the pagination start (exclusive).
pub open spec fn past_start(start: Option<Seq<u8>>, k: Seq<u8>) -> bool {
    match start {
        None => true,
        Some(st) => lex_lt(st, k),
    }
}

/// The spec view of an optional borrowed start address.
pub open spec fn start_view(start_after: Option<&Vec<u8>>) -> Option<Seq<u8>> {
    match start_after {
        None => None,
        Some(v) => Some(v@),
    }
}

/// The first index whose entry lies past the pagination start.
pub open spec fn spec_page_start(s: Seq<(Vec<u8>, Holder)>, start: Option<Seq<u8>>) -> int
    decreases s.len(),
{
    if s.len() == 0 {
        0
    } else if past_start(start, s[0].0@) {
        0
    } else {
        1 + spec_page_start(s.drop_first(), start)
    }
}

/// A scan that stops at the first entry past the start finds exactly
/// [`spec_page_start`].
proof fn lemma_page_start(s: Seq<(Vec<u8>, Holder)>, start: Option<Seq<u8>>, i: int)
    requires
        0 <= i <= s.len(),
        forall|j: int| 0 <= j < i ==> !past_start(start, (#[trigger] s[j]).0@),
        i < s.len() ==> past_start(start, s[i].0@),
    ensures
        spec_page_start(s, start) == i,
    decreases s.len(),
{
    if s.len() > 0 && !past_start(start, s[0].0@) {
        assert(forall|j: int|
            0 <= j < i - 1 ==> !past_start(start, (#[trigger] s.drop_first()[j]).0@) && s.drop_first()[j]
                == s[j + 1]);
        assert(forall|j: int| 0 <= j < s.drop_first().len() ==> s.drop_first()[j] == s[j + 1]);
        lemma_page_start(s.drop_first(), start, i - 1);
    }
}

/// One page of holders, ascending by address: up to `limit` records
/// (default 10, capped at 30), starting strictly after `start_after`.
pub fn read_holders(
    store: &RewardStore,
    start_after: Option<&Vec<u8>>,
    limit: Option<u32>,
) -> (r: Vec<HolderResponse>)
    requires
        sorted(store.holders.entries@),
    ensures
        ({
            let e = store.holders.entries@;
            let lo = spec_page_start(e, start_view(start_after));
            let lim = page_limit(limit);
            &&& r@.len() == (if e.len() - lo < lim {
                e.len() - lo
            } else {
                lim
            })
            &&& forall|j: int|
                0 <= j < r@.len() ==> ((#[trigger] r@[j]).address@ == e[lo + j].0@ && r@[j].balance
                    == e[lo + j].1.balance && r@[j].index == e[lo + j].1.index
                    && r@[j].pending_rewards == e[lo + j].1.pending_rewards)
        }),
{
    let lim_u32 = match limit {
        Some(l) => if l > MAX_LIMIT {
            MAX_LIMIT
        } else {
            l
        },
        None => DEFAULT_LIMIT,
    };
    let lim = lim_u32 as usize;
    let n = store.holders.entries.len();
    let mut lo: usize = 0;
    match start_after {
        Some(st) => {
            loop
                invariant
                    n == store.holders.entries@.len(),
                    lo <= n,
                    sorted(store.holders.entries@),
                    forall|j: int|
                        0 <= j < lo ==> !past_start(
                            Some(st@),
                            (#[trigger] store.holders.entries@[j]).0@,
                        ),
                ensures
                    lo <= n,
                    forall|j: int|
                        0 <= j < lo ==> !past_start(
                            Some(st@),
                            (#[trigger] store.holders.entries@[j]).0@,
                        ),
                    lo < n ==> past_start(Some(st@), store.holders.entries@[lo as int].0@),
                decreases n - lo,
            {
                if lo >= n {
                    break ;
                }
                match lex_cmp(st, &store.holders.entries[lo].0) {
                    Cmp::Less => {
                        break ;
                    },
                    _ => {
                        lo = lo + 1;
                    },
                }
            }
            proof {
                lemma_page_start(store.holders.entries@, Some(st@), lo as int);
            }
        },
        None => {
            proof {
                lemma_page_start(store.holders.entries@, None::<Seq<u8>>, 0);
            }
        },
    }
    let end = if n - lo < lim {
        n
    } else {
        lo + lim
    };
    let mut out: Vec<HolderResponse> = Vec::new();
    let mut i: usize = lo;
    while i < end
        invariant
            lo <= i <= end <= n,
            n == store.holders.entries@.len(),
            out@.len() == i - lo,
            forall|j: int|
                0 <= j < out@.len() ==> ((#[trigger] out@[j]).address@
                    == store.holders.entries@[lo + j].0@ && out@[j].balance
                    == store.holders.entries@[lo + j].1.balance && out@[j].index
                    == store.holders.entries@[lo + j].1.index && out@[j].pending_rewards
                    == store.holders.entries@[lo + j].1.pending_rewards),
        decreases end - i,
    {
        let e = &store.holders.entries[i];
        out.push(
            HolderResponse {
                address: clone_bytes(&e.0),
                balance: e.1.balance,
                index: e.1.index,
                pending_rewards: e.1.pending_rewards,
            },
        );
        i = i + 1;
    }
    out
}

/// One page of holders, as served to the holders query.
pub fn query_holders(
    store: &RewardStore,
    start_after: Option<&Vec<u8>>,
    limit: Option<u32>,
) -> (r: Vec<HolderResponse>)
    requires
        sorted(store.holders.entries@),
    ensures
        ({
            let e = store.holders.entries@;
            let lo = spec_page_start(e, start_view(start_after));
            let lim = page_limit(limit);
            &&& r@.len() == (if e.len() - lo < lim {
                e.len() - lo
            } else {
                lim
            })
            &&& forall|j: int|
                0 <= j < r@.len() ==> ((#[trigger] r@[j]).address@ == e[lo + j].0@ && r@[j].balance
                    == e[lo + j].1.balance && r@[j].index == e[lo + j].1.index
                    && r@[j].pending_rewards == e[lo + j].1.pending_rewards)
        }),
{
    read_holders(store, start_after, limit)
}

/// The ledger's configuration, as served to the config query.
pub fn query_config(store: &RewardStore) -> (r: Config)
    ensures
        r.hub_contract@ == store.config.hub_contract@,
        r.reward_denom@ == store.config.reward_denom@,
{
    Config {
        hub_contract: clone_bytes(&store.config.hub_contract),
        reward_denom: clone_bytes(&store.config.reward_denom),
    }
}

/// The ledger's mutable state, as served to the state query.
pub fn query_state(store: &RewardStore) -> (r: State)
    ensures
        r == store.state,
{
    store.state
}

} // verus!
