//! The bonding/unbonding batch engine.
//!
//! The hub mints derivative tokens for deposits of the underlying asset at a
//! floating exchange rate, batches unbond requests into epochs, detects and
//! absorbs slashing, and releases matured batches to their claimants. The
//! exchange rate is recomputed only from the recorded bonded amount, the
//! derivative tokens issued, and the pending fee-adjusted unbond requests —
//! and only by the slashing check and batch submission; bonding leaves it
//! untouched.

use vstd::prelude::*;

use crate::bytes::lex_cmp;
use crate::bytes::Cmp;
use crate::error::{Error, Reference, Violation};
use crate::fixed::{
    lemma_ratio_monotone, ratio_atto, Decimal, DECIMAL_FRACTIONAL,
};
use crate::holders::clone_bytes;
use crate::msgs::{Coin, OutMsg};
use crate::waitlist::{wl_sorted, Waitlist};

verus! {

/// Default page size of the unbond-history query.
pub const DEFAULT_HISTORY_LIMIT: u32 = 10;

/// Largest page size the unbond-history query will serve.
pub const MAX_HISTORY_LIMIT: u32 = 30;

/// Static configuration of the hub: its owner and the collaborator
/// contracts, each unset until governance registers it.
#[derive(Clone, Debug, PartialEq, Eq)]
pub struct Config {
    pub creator: Vec<u8>,
    pub reward_contract: Option<Vec<u8>>,
    pub token_contract: Option<Vec<u8>>,
    pub validators_registry_contract: Option<Vec<u8>>,
}

/// Operating parameters of the batch engine.
#[derive(Clone, Debug, PartialEq, Eq)]
pub struct Parameters {
    /// Seconds between batch submissions.
    pub epoch_period: u64,
    pub underlying_coin_denom: Vec<u8>,
    /// Seconds a submitted batch must wait before its funds are claimable.
    pub unbonding_period: u64,
    /// Haircut on unbond requests while the exchange rate is depressed;
    /// never above 1.0.
    pub peg_recovery_fee: Decimal,
    /// Exchange-rate threshold below which the peg-recovery fee applies.
    pub er_threshold: Decimal,
    pub reward_denom: Vec<u8>,
}

/// The batch currently collecting unbond requests.
#[derive(Clone, Copy, PartialEq, Eq, Structural, Debug)]
pub struct CurrentBatch {
    pub id: u64,
    /// Fee-adjusted derivative tokens requested for unbonding in this batch.
    pub requested_with_fee: u128,
}

/// Mutable state of the batch engine.
#[derive(Clone, Copy, PartialEq, Eq, Structural, Debug)]
pub struct State {
    /// Underlying asset per derivative token; starts at 1.0.
    pub exchange_rate: Decimal,
    /// Underlying amount the engine believes is bonded with validators.
    pub total_bond_amount: u128,
    pub last_index_modification: u64,
    /// Contract balance snapshot left by the last withdrawal, used to
    /// reconcile what has actually arrived for unbonded batches.
    pub prev_hub_balance: u128,
    /// What was observed to have arrived since the previous snapshot.
    pub actual_unbonded_amount: u128,
    /// When the last batch was submitted for undelegation.
    pub last_unbonded_time: u64,
    /// Id of the last batch that has been submitted.
    pub last_processed_batch: u64,
}

/// One submitted batch: immutable once written, except for the released
/// flag, which is set when its funds have been confirmed received.
#[derive(Clone, Copy, PartialEq, Eq, Structural, Debug)]
pub struct UnbondHistory {
    pub batch_id: u64,
    /// When the batch was submitted for undelegation.
    pub time: u64,
    /// Fee-adjusted derivative tokens that were in the batch.
    pub amount: u128,
    /// The exchange rate at submission; matured entries convert at it.
    pub withdraw_rate: Decimal,
    pub released: bool,
}

/// The whole persisted state of the batch engine, handed into every
/// operation by the host.
pub struct HubStore {
    pub config: Config,
    pub parameters: Parameters,
    pub state: State,
    pub current_batch: CurrentBatch,
    pub unbond_history: Vec<UnbondHistory>,
    pub unbond_waitlist: Waitlist,
}

/// Structural well-formedness of the engine's store: batch ids are handed
/// out contiguously from 1, so the history record of batch `b` sits at
/// index `b - 1`; the wait list is sorted and references only batches that
/// exist or the open one; the last submitted batch never runs ahead of the
/// open one; and the peg-recovery fee is a true fraction.
pub open spec fn hub_wf(h: HubStore) -> bool {
    &&& h.current_batch.id == h.unbond_history@.len() + 1
    &&& forall|i: int|
        0 <= i < h.unbond_history@.len() ==> (#[trigger] h.unbond_history@[i]).batch_id == i + 1
    &&& wl_sorted(h.unbond_waitlist.entries@)
    &&& forall|i: int|
        0 <= i < h.unbond_waitlist.entries@.len() ==> 1 <= (
        #[trigger] h.unbond_waitlist.entries@[i]).batch_id <= h.current_batch.id
    &&& h.state.last_processed_batch <= h.current_batch.id
    &&& h.parameters.peg_recovery_fee.atto <= DECIMAL_FRACTIONAL
}

/// The exchange rate recomputed from a bonded amount and an effective
/// supply: their ratio, or 1.0 while either side is still zero.
pub open spec fn rate_atto_of(bond: int, supply: int) -> int {
    if bond == 0 || supply == 0 {
        DECIMAL_FRACTIONAL as int
    } else {
        ratio_atto(bond, supply)
    }
}

impl Config {
    /// The registered reward ledger contract, or the configuration error.
    pub fn require_reward(&self) -> (r: Result<&Vec<u8>, Error>)
        ensures
            r is Ok <==> self.reward_contract is Some,
            r matches Ok(v) ==> self.reward_contract == Some(*v),
            r matches Err(e) ==> e == Error::Uninitialized(Reference::Reward),
    {
        match &self.reward_contract {
            Some(v) => Ok(v),
            None => Err(Error::Uninitialized(Reference::Reward)),
        }
    }

    /// The registered derivative-token contract, or the configuration error.
    pub fn require_token(&self) -> (r: Result<&Vec<u8>, Error>)
        ensures
            r is Ok <==> self.token_contract is Some,
            r matches Ok(v) ==> self.token_contract == Some(*v),
            r matches Err(e) ==> e == Error::Uninitialized(Reference::Token),
    {
        match &self.token_contract {
            Some(v) => Ok(v),
            None => Err(Error::Uninitialized(Reference::Token)),
        }
    }

    /// The registered validator registry contract, or the configuration
    /// error.
    pub fn require_registry(&self) -> (r: Result<&Vec<u8>, Error>)
        ensures
            r is Ok <==> self.validators_registry_contract is Some,
            r matches Ok(v) ==> self.validators_registry_contract == Some(*v),
            r matches Err(e) ==> e == Error::Uninitialized(Reference::ValidatorsRegistry),
    {
        match &self.validators_registry_contract {
            Some(v) => Ok(v),
            None => Err(Error::Uninitialized(Reference::ValidatorsRegistry)),
        }
    }
}

/// Set up the batch engine: exchange rate 1.0, nothing bonded, batch 1 open
/// and empty, no collaborators registered. Refuses a peg-recovery fee above
/// 1.0.
pub fn instantiate(
    owner: Vec<u8>,
    now: u64,
    epoch_period: u64,
    underlying_coin_denom: Vec<u8>,
    unbonding_period: u64,
    peg_recovery_fee: Decimal,
    er_threshold: Decimal,
    reward_denom: Vec<u8>,
) -> (r: Result<HubStore, Error>)
    ensures
        peg_recovery_fee.atto > DECIMAL_FRACTIONAL ==> r == Err::<HubStore, Error>(
            Error::InvariantViolation(Violation::FeeAboveOne),
        ),
        r is Ok <==> peg_recovery_fee.atto <= DECIMAL_FRACTIONAL,
        r matches Ok(h) ==> {
            &&& hub_wf(h)
            &&& h.config.creator == owner
            &&& h.config.reward_contract is None
            &&& h.config.token_contract is None
            &&& h.config.validators_registry_contract is None
            &&& h.parameters.epoch_period == epoch_period
            &&& h.parameters.underlying_coin_denom == underlying_coin_denom
            &&& h.parameters.unbonding_period == unbonding_period
            &&& h.parameters.peg_recovery_fee == peg_recovery_fee
            &&& h.parameters.er_threshold == er_threshold
            &&& h.parameters.reward_denom == reward_denom
            &&& h.state == (State {
                exchange_rate: Decimal { atto: DECIMAL_FRACTIONAL },
                total_bond_amount: 0,
                last_index_modification: now,
                prev_hub_balance: 0,
                actual_unbonded_amount: 0,
                last_unbonded_time: now,
                last_processed_batch: 0,
            })
            &&& h.current_batch == (CurrentBatch { id: 1, requested_with_fee: 0 })
            &&& h.unbond_history@.len() == 0
            &&& h.unbond_waitlist.entries@.len() == 0
        },
{
    if peg_recovery_fee.atto > DECIMAL_FRACTIONAL {
        return Err(Error::InvariantViolation(Violation::FeeAboveOne));
    }
    Ok(
        HubStore {
            config: Config {
                creator: owner,
                reward_contract: None,
                token_contract: None,
                validators_registry_contract: None,
            },
            parameters: Parameters {
                epoch_period,
                underlying_coin_denom,
                unbonding_period,
                peg_recovery_fee,
                er_threshold,
                reward_denom,
            },
            state: State {
                exchange_rate: Decimal { atto: DECIMAL_FRACTIONAL },
                total_bond_amount: 0,
                last_index_modification: now,
                prev_hub_balance: 0,
                actual_unbonded_amount: 0,
                last_unbonded_time: now,
                last_processed_batch: 0,
            },
            current_batch: CurrentBatch { id: 1, requested_with_fee: 0 },
            unbond_history: Vec::new(),
            unbond_waitlist: Waitlist::new(),
        },
    )
}

/// A bond fits exactly when the exchange rate can divide the deposit and
/// the recorded bonded amount can grow by it.
pub open spec fn bond_fits(s: HubStore, amount: int) -> bool {
    &&& s.state.exchange_rate.atto != 0
    &&& amount * (DECIMAL_FRACTIONAL as int) <= u128::MAX
    &&& s.state.total_bond_amount + amount <= u128::MAX
}

/// What a bond mints: the deposit divided by the exchange rate, rounded
/// down.
pub open spec fn bond_mint_amount(s: HubStore, amount: int) -> int {
    crate::fixed::div_floor(amount, s.state.exchange_rate.atto as int)
}

/// Accept a deposit of the underlying asset: mint
/// `amount / exchange_rate` derivative tokens to the sender, record the
/// deposit as bonded, and route the delegation through the validator
/// registry. The exchange rate itself is not touched.
pub fn execute_bond(store: &mut HubStore, sender: &Vec<u8>, amount: u128, denom: &Vec<u8>) -> (r:
    Result<Vec<OutMsg>, Error>)
    requires
        hub_wf(*old(store)),
    ensures
        hub_wf(*final(store)),
        r is Err ==> *final(store) == *old(store),
        amount == 0 ==> r == Err::<Vec<OutMsg>, Error>(
            Error::InvariantViolation(Violation::ZeroAmount),
        ),
        amount != 0 && denom@ != old(store).parameters.underlying_coin_denom@ ==> r == Err::<
            Vec<OutMsg>,
            Error,
        >(Error::InvariantViolation(Violation::DenomMismatch)),
        amount != 0 && denom@ == old(store).parameters.underlying_coin_denom@ && old(store).config.token_contract is None ==> r == Err::<Vec<OutMsg>, Error>(
            Error::Uninitialized(Reference::Token),
        ),
        amount != 0 && denom@ == old(store).parameters.underlying_coin_denom@ && old(store).config.token_contract is Some && old(store).config.validators_registry_contract is None
            ==> r == Err::<Vec<OutMsg>, Error>(
            Error::Uninitialized(Reference::ValidatorsRegistry),
        ),
        r is Ok <==> amount != 0 && denom@ == old(store).parameters.underlying_coin_denom@ && old(store).config.token_contract is Some && old(store).config.validators_registry_contract is Some
            && bond_fits(*old(store), amount as int),
        r matches Ok(m) ==> {
            &&& m@.len() == 2
            &&& (m@[0] matches OutMsg::Delegate { amount: a } && a == amount)
            &&& (m@[1] matches OutMsg::MintDerivative { recipient, amount: minted }
                && recipient@ == sender@ && minted == bond_mint_amount(*old(store), amount as int))
        },
        r is Ok ==> final(store).state == (State {
            total_bond_amount: (old(store).state.total_bond_amount + amount) as u128,
            ..old(store).state
        }),
        r is Ok ==> final(store).config == old(store).config && final(store).parameters == old(store).parameters && final(store).current_batch == old(store).current_batch && final(store).unbond_history@ == old(store).unbond_history@ && final(store).unbond_waitlist.entries@
            == old(store).unbond_waitlist.entries@,
        final(store).state.exchange_rate == old(store).state.exchange_rate,
{
    if amount == 0 {
        return Err(Error::InvariantViolation(Violation::ZeroAmount));
    }
    match lex_cmp(denom, &store.parameters.underlying_coin_denom) {
        Cmp::Equal => {},
        _ => {
            return Err(Error::InvariantViolation(Violation::DenomMismatch));
        },
    }
    match store.config.require_token() {
        Ok(_) => {},
        Err(e) => {
            return Err(e);
        },
    }
    match store.config.require_registry() {
        Ok(_) => {},
        Err(e) => {
            return Err(e);
        },
    }
    let minted = match store.state.exchange_rate.div_floor(amount) {
        Some(m) => m,
        None => {
            return Err(Error::InvariantViolation(Violation::Arithmetic));
        },
    };
    let new_bond = match store.state.total_bond_amount.checked_add(amount) {
        Some(b) => b,
        None => {
            return Err(Error::InvariantViolation(Violation::Arithmetic));
        },
    };
    store.state = State { total_bond_amount: new_bond, ..store.state };
    let mut msgs: Vec<OutMsg> = Vec::new();
    msgs.push(OutMsg::Delegate { amount });
    msgs.push(OutMsg::MintDerivative { recipient: clone_bytes(sender), amount: minted });
    Ok(msgs)
}

/// The underlying amount actually delegated, summed over the delegations
/// whose denomination matches.
pub open spec fn actual_bonded(dels: Seq<Coin>, denom: Seq<u8>) -> int
    decreases dels.len(),
{
    if dels.len() == 0 {
        0
    } else {
        actual_bonded(dels.drop_last(), denom) + (if dels.last().denom@ == denom {
            dels.last().amount as int
        } else {
            0
        })
    }
}

/// The state after one slashing check that observed `actual` bonded and
/// `total_issued` derivative tokens: if the engine recorded more than is
/// actually delegated, the record drops to reality and the exchange rate is
/// recomputed; otherwise nothing changes.
pub open spec fn slashing_spec(st: State, batch: CurrentBatch, actual: int, total_issued: int) -> State {
    if st.total_bond_amount > actual {
        State {
            exchange_rate: Decimal {
                atto: rate_atto_of(actual, total_issued + batch.requested_with_fee) as u128,
            },
            total_bond_amount: actual as u128,
            ..st
        }
    } else {
        st
    }
}

/// The arithmetic a detected slashing needs: a representable supply and a
/// representable recomputed rate.
pub open spec fn slashing_fits(st: State, batch: CurrentBatch, actual: int, total_issued: int) -> bool {
    st.total_bond_amount > actual ==> {
        &&& total_issued + batch.requested_with_fee <= u128::MAX
        &&& rate_atto_of(actual, total_issued + batch.requested_with_fee) <= u128::MAX
        &&& (actual != 0 && total_issued + batch.requested_with_fee != 0 ==> actual * (
        DECIMAL_FRACTIONAL as int) <= u128::MAX)
    }
}

/// Check whether slashing has happened: compare the recorded bonded amount
/// against what the staking module actually reports for the configured
/// denomination, and absorb any loss into the exchange rate. An empty
/// delegation list means "not yet bonded" and is a no-op. The exchange rate
/// never rises here (see [`lemma_slashing_never_increases_rate`]), and a
/// second check against the same observations changes nothing (see
/// [`lemma_slashing_idempotent`]).
pub fn slashing(store: &mut HubStore, delegations: &Vec<Coin>, total_issued: u128) -> (r: Result<
    (),
    Error,
>)
    requires
        hub_wf(*old(store)),
    ensures
        hub_wf(*final(store)),
        r is Err ==> *final(store) == *old(store),
        delegations@.len() == 0 ==> r is Ok && *final(store) == *old(store),
        r is Ok <==> delegations@.len() == 0 || (actual_bonded(
            delegations@,
            old(store).parameters.underlying_coin_denom@,
        ) <= u128::MAX && slashing_fits(
            old(store).state,
            old(store).current_batch,
            actual_bonded(delegations@, old(store).parameters.underlying_coin_denom@),
            total_issued as int,
        )),
        r is Err ==> r == Err::<(), Error>(Error::InvariantViolation(Violation::Arithmetic)),
        r is Ok && delegations@.len() != 0 ==> final(store).state == slashing_spec(
            old(store).state,
            old(store).current_batch,
            actual_bonded(delegations@, old(store).parameters.underlying_coin_denom@),
            total_issued as int,
        ),
        final(store).config == old(store).config && final(store).parameters == old(store).parameters && final(store).current_batch == old(store).current_batch && final(store).unbond_history@ == old(store).unbond_history@ && final(store).unbond_waitlist.entries@
            == old(store).unbond_waitlist.entries@,
{
    let n = delegations.len();
    if n == 0 {
        return Ok(());
    }
    let ghost denom_spec = store.parameters.underlying_coin_denom@;
    let mut actual: u128 = 0;
    let mut i: usize = 0;
    while i < n
        invariant
            n == delegations@.len(),
            i <= n,
            *store == *old(store),
            hub_wf(*store),
            denom_spec == store.parameters.underlying_coin_denom@,
            actual == actual_bonded(delegations@.take(i as int), denom_spec),
        decreases n - i,
    {
        let d = &delegations[i];
        let matches_denom = match lex_cmp(&d.denom, &store.parameters.underlying_coin_denom) {
            Cmp::Equal => true,
            _ => false,
        };
        proof {
            assert(delegations@.take(i as int + 1).drop_last() =~= delegations@.take(i as int));
            assert(delegations@.take(i as int + 1).last() == delegations@[i as int]);
        }
        if matches_denom {
            actual = match actual.checked_add(d.amount) {
                Some(a) => a,
                None => {
                    proof {
                        lemma_actual_bonded_monotone(delegations@, denom_spec, i as int + 1);
                    }
                    return Err(Error::InvariantViolation(Violation::Arithmetic));
                },
            };
        }
        i = i + 1;
    }
    proof {
        assert(delegations@.take(n as int) =~= delegations@);
    }
    if store.state.total_bond_amount > actual {
        let supply = match total_issued.checked_add(store.current_batch.requested_with_fee) {
            Some(s) => s,
            None => {
                return Err(Error::InvariantViolation(Violation::Arithmetic));
            },
        };
        let new_rate = if actual == 0 || supply == 0 {
            Decimal { atto: DECIMAL_FRACTIONAL }
        } else {
            match Decimal::from_ratio(actual, supply) {
                Some(d) => d,
                None => {
                    return Err(Error::InvariantViolation(Violation::Arithmetic));
                },
            }
        };
        store.state = State {
            exchange_rate: new_rate,
            total_bond_amount: actual,
            ..store.state
        };
    }
    Ok(())
}

/// Any prefix of the delegation list is bounded by the whole sum.
proof fn lemma_actual_bonded_monotone(dels: Seq<Coin>, denom: Seq<u8>, i: int)
    requires
        0 <= i <= dels.len(),
    ensures
        0 <= actual_bonded(dels.take(i), denom) <= actual_bonded(dels, denom),
    decreases dels.len(),
{
    if dels.len() == 0 {
        assert(dels.take(i) =~= dels);
    } else if i == dels.len() {
        assert(dels.take(i) =~= dels);
        lemma_actual_bonded_monotone(dels.drop_last(), denom, dels.len() - 1);
        assert(dels.drop_last().take(dels.len() - 1) =~= dels.drop_last());
    } else {
        assert(dels.take(i) =~= dels.drop_last().take(i));
        lemma_actual_bonded_monotone(dels.drop_last(), denom, i);
    }
}

/// Run the slashing check and report the exchange rate it left behind.
pub fn execute_slashing(store: &mut HubStore, delegations: &Vec<Coin>, total_issued: u128) -> (r:
    Result<Decimal, Error>)
    requires
        hub_wf(*old(store)),
    ensures
        hub_wf(*final(store)),
        r is Err ==> *final(store) == *old(store),
        r is Ok <==> delegations@.len() == 0 || (actual_bonded(
            delegations@,
            old(store).parameters.underlying_coin_denom@,
        ) <= u128::MAX && slashing_fits(
            old(store).state,
            old(store).current_batch,
            actual_bonded(delegations@, old(store).parameters.underlying_coin_denom@),
            total_issued as int,
        )),
        r matches Ok(rate) ==> rate == final(store).state.exchange_rate,
        r is Ok && delegations@.len() != 0 ==> final(store).state == slashing_spec(
            old(store).state,
            old(store).current_batch,
            actual_bonded(delegations@, old(store).parameters.underlying_coin_denom@),
            total_issued as int,
        ),
        r is Ok && delegations@.len() == 0 ==> *final(store) == *old(store),
        final(store).config == old(store).config && final(store).parameters == old(store).parameters && final(store).current_batch == old(store).current_batch && final(store).unbond_history@ == old(store).unbond_history@ && final(store).unbond_waitlist.entries@
            == old(store).unbond_waitlist.entries@,
{
    match slashing(store, delegations, total_issued) {
        Ok(()) => Ok(store.state.exchange_rate),
        Err(e) => Err(e),
    }
}

/// The slashing check never raises the exchange rate, provided the stored
/// rate reflects the same observations it recomputes from — the engine's
/// standing invariant — and the matching delegations are not all zero (a
/// delegation list that carries the configured denomination nowhere, while
/// something is recorded as bonded, would reset the rate to 1.0).
pub proof fn lemma_slashing_never_increases_rate(
    st: State,
    batch: CurrentBatch,
    actual: int,
    total_issued: int,
)
    requires
        0 <= actual,
        0 <= total_issued,
        st.exchange_rate.atto == rate_atto_of(
            st.total_bond_amount as int,
            total_issued + batch.requested_with_fee,
        ),
        actual > 0 || st.total_bond_amount <= actual,
    ensures
        slashing_spec(st, batch, actual, total_issued).exchange_rate.atto
            <= st.exchange_rate.atto,
{
    if st.total_bond_amount > actual {
        let supply = total_issued + batch.requested_with_fee;
        if supply != 0 {
            lemma_ratio_monotone(actual, st.total_bond_amount as int, supply);
        }
    }
}

/// Applying the slashing check twice against unchanged upstream
/// observations is idempotent: the second application leaves the state
/// exactly where the first put it.
pub proof fn lemma_slashing_idempotent(st: State, batch: CurrentBatch, actual: int, total_issued: int)
    requires
        0 <= actual <= u128::MAX,
    ensures
        slashing_spec(slashing_spec(st, batch, actual, total_issued), batch, actual, total_issued)
            == slashing_spec(st, batch, actual, total_issued),
{
}

/// Refresh the reward pipeline: withdraw staking rewards from every current
/// validator, then have the reward ledger convert what arrived and fold it
/// into its global index. Permissionless; requires the reward ledger to be
/// registered. The exchange rate is not touched.
pub fn execute_update_global(store: &mut HubStore, now: u64, validators: &Vec<Vec<u8>>) -> (r:
    Result<Vec<OutMsg>, Error>)
    requires
        hub_wf(*old(store)),
    ensures
        hub_wf(*final(store)),
        r is Err ==> *final(store) == *old(store),
        r is Ok <==> old(store).config.reward_contract is Some,
        r is Err ==> r == Err::<Vec<OutMsg>, Error>(Error::Uninitialized(Reference::Reward)),
        r matches Ok(m) ==> {
            &&& m@.len() == validators@.len() + 2
            &&& (forall|j: int|
                0 <= j < validators@.len() ==> ((#[trigger] m@[j]) matches OutMsg::WithdrawReward {
                    validator,
                } && validator@ == validators@[j]@))
            &&& m@[validators@.len() as int] is SwapToRewardDenom
            &&& m@[validators@.len() as int + 1] is UpdateRewardGlobalIndex
        },
        r is Ok ==> final(store).state == (State {
            last_index_modification: now,
            ..old(store).state
        }),
        r is Ok ==> final(store).config == old(store).config && final(store).parameters == old(store).parameters && final(store).current_batch == old(store).current_batch && final(store).unbond_history@ == old(store).unbond_history@ && final(store).unbond_waitlist.entries@
            == old(store).unbond_waitlist.entries@,
        final(store).state.exchange_rate == old(store).state.exchange_rate,
{
    match store.config.require_reward() {
        Ok(_) => {},
        Err(e) => {
            return Err(e);
        },
    }
    let mut msgs: Vec<OutMsg> = Vec::new();
    let n = validators.len();
    let mut i: usize = 0;
    while i < n
        invariant
            n == validators@.len(),
            i <= n,
            msgs@.len() == i,
            forall|j: int|
                0 <= j < i ==> ((#[trigger] msgs@[j]) matches OutMsg::WithdrawReward { validator }
                    && validator@ == validators@[j]@),
        decreases n - i,
    {
        msgs.push(OutMsg::WithdrawReward { validator: clone_bytes(&validators[i]) });
        i = i + 1;
    }
    msgs.push(OutMsg::SwapToRewardDenom);
    msgs.push(OutMsg::UpdateRewardGlobalIndex);
    store.state = State { last_index_modification: now, ..store.state };
    Ok(msgs)
}

/// Forward redelegations to the host's staking module on the registry's
/// behalf: one redelegate request per (destination, coin) pair. Authorized
/// to the validator registry and the owner only.
pub fn execute_redelegate_proxy(
    store: &HubStore,
    caller: &Vec<u8>,
    src_validator: &Vec<u8>,
    redelegations: &Vec<(Vec<u8>, Coin)>,
) -> (r: Result<Vec<OutMsg>, Error>)
    ensures
        store.config.validators_registry_contract is None ==> r == Err::<Vec<OutMsg>, Error>(
            Error::Uninitialized(Reference::ValidatorsRegistry),
        ),
        r is Ok <==> store.config.validators_registry_contract is Some && (caller@
            == store.config.validators_registry_contract->0@ || caller@
            == store.config.creator@),
        store.config.validators_registry_contract is Some && !(caller@
            == store.config.validators_registry_contract->0@ || caller@
            == store.config.creator@) ==> r == Err::<Vec<OutMsg>, Error>(Error::Unauthorized),
        r matches Ok(m) ==> {
            &&& m@.len() == redelegations@.len()
            &&& (forall|j: int|
                0 <= j < m@.len() ==> ((#[trigger] m@[j]) matches OutMsg::Redelegate {
                    src_validator: sv,
                    dst_validator: dv,
                    denom,
                    amount,
                } && sv@ == src_validator@ && dv@ == redelegations@[j].0@ && denom@
                    == redelegations@[j].1.denom@ && amount == redelegations@[j].1.amount))
        },
{
    let registry = match store.config.require_registry() {
        Ok(v) => v,
        Err(e) => {
            return Err(e);
        },
    };
    let is_registry = match lex_cmp(caller, registry) {
        Cmp::Equal => true,
        _ => false,
    };
    let is_owner = match lex_cmp(caller, &store.config.creator) {
        Cmp::Equal => true,
        _ => false,
    };
    if !is_registry && !is_owner {
        return Err(Error::Unauthorized);
    }
    let mut msgs: Vec<OutMsg> = Vec::new();
    let n = redelegations.len();
    let mut i: usize = 0;
    while i < n
        invariant
            n == redelegations@.len(),
            i <= n,
            msgs@.len() == i,
            forall|j: int|
                0 <= j < i ==> ((#[trigger] msgs@[j]) matches OutMsg::Redelegate {
                    src_validator: sv,
                    dst_validator: dv,
                    denom,
                    amount,
                } && sv@ == src_validator@ && dv@ == redelegations@[j].0@ && denom@
                    == redelegations@[j].1.denom@ && amount == redelegations@[j].1.amount),
        decreases n - i,
    {
        let item = &redelegations[i];
        msgs.push(
            OutMsg::Redelegate {
                src_validator: clone_bytes(src_validator),
                dst_validator: clone_bytes(&item.0),
                denom: clone_bytes(&item.1.denom),
                amount: item.1.amount,
            },
        );
        i = i + 1;
    }
    Ok(msgs)
}

/// Update the engine's operating parameters. Owner only; a peg-recovery fee
/// above 1.0 is refused. A parameter left out keeps its value.
pub fn execute_update_params(
    store: &mut HubStore,
    caller: &Vec<u8>,
    epoch_period: Option<u64>,
    peg_recovery_fee: Option<Decimal>,
    er_threshold: Option<Decimal>,
) -> (r: Result<(), Error>)
    requires
        hub_wf(*old(store)),
    ensures
        hub_wf(*final(store)),
        r is Err ==> *final(store) == *old(store),
        caller@ != old(store).config.creator@ ==> r == Err::<(), Error>(Error::Unauthorized),
        caller@ == old(store).config.creator@ && (peg_recovery_fee matches Some(f)
            && f.atto > DECIMAL_FRACTIONAL) ==> r == Err::<(), Error>(
            Error::InvariantViolation(Violation::FeeAboveOne),
        ),
        r is Ok <==> caller@ == old(store).config.creator@ && (peg_recovery_fee matches Some(f)
            ==> f.atto <= DECIMAL_FRACTIONAL),
        r is Ok ==> final(store).parameters == (Parameters {
            epoch_period: (match epoch_period {
                Some(e) => e,
                None => old(store).parameters.epoch_period,
            }),
            peg_recovery_fee: (match peg_recovery_fee {
                Some(f) => f,
                None => old(store).parameters.peg_recovery_fee,
            }),
            er_threshold: (match er_threshold {
                Some(t) => t,
                None => old(store).parameters.er_threshold,
            }),
            ..old(store).parameters
        }),
        r is Ok ==> final(store).config == old(store).config && final(store).state == old(store).state && final(store).current_batch == old(store).current_batch && final(store).unbond_history@ == old(store).unbond_history@ && final(store).unbond_waitlist.entries@
            == old(store).unbond_waitlist.entries@,
{
    match lex_cmp(caller, &store.config.creator) {
        Cmp::Equal => {},
        _ => {
            return Err(Error::Unauthorized);
        },
    }
    let new_fee = match peg_recovery_fee {
        Some(f) => {
            if f.atto > DECIMAL_FRACTIONAL {
                return Err(Error::InvariantViolation(Violation::FeeAboveOne));
            }
            f
        },
        None => store.parameters.peg_recovery_fee,
    };
    let new_epoch = match epoch_period {
        Some(e) => e,
        None => store.parameters.epoch_period,
    };
    let new_threshold = match er_threshold {
        Some(t) => t,
        None => store.parameters.er_threshold,
    };
    store.parameters = Parameters {
        epoch_period: new_epoch,
        peg_recovery_fee: new_fee,
        er_threshold: new_threshold,
        ..take_parameters(&mut store.parameters)
    };
    Ok(())
}

/// Move the parameters out of the store, leaving placeholder values; the
/// caller writes a full record straight back.
fn take_parameters(p: &mut Parameters) -> (r: Parameters)
    ensures
        r == *old(p),
{
    let mut tmp = Parameters {
        epoch_period: 0,
        underlying_coin_denom: Vec::new(),
        unbonding_period: 0,
        peg_recovery_fee: Decimal { atto: 0 },
        er_threshold: Decimal { atto: 0 },
        reward_denom: Vec::new(),
    };
    core::mem::swap(p, &mut tmp);
    tmp
}

/// Update the owner and the collaborator references. Owner only; a
/// reference left out keeps its value.
pub fn execute_update_config(
    store: &mut HubStore,
    caller: &Vec<u8>,
    owner: Option<Vec<u8>>,
    reward_contract: Option<Vec<u8>>,
    token_contract: Option<Vec<u8>>,
    validators_registry_contract: Option<Vec<u8>>,
) -> (r: Result<(), Error>)
    requires
        hub_wf(*old(store)),
    ensures
        hub_wf(*final(store)),
        r is Err ==> *final(store) == *old(store),
        caller@ != old(store).config.creator@ ==> r == Err::<(), Error>(Error::Unauthorized),
        r is Ok <==> caller@ == old(store).config.creator@,
        r is Ok ==> final(store).config == (Config {
            creator: (match owner {
                Some(o) => o,
                None => old(store).config.creator,
            }),
            reward_contract: (match reward_contract {
                Some(c) => Some(c),
                None => old(store).config.reward_contract,
            }),
            token_contract: (match token_contract {
                Some(c) => Some(c),
                None => old(store).config.token_contract,
            }),
            validators_registry_contract: (match validators_registry_contract {
                Some(c) => Some(c),
                None => old(store).config.validators_registry_contract,
            }),
        }),
        r is Ok ==> final(store).parameters == old(store).parameters && final(store).state == old(store).state && final(store).current_batch == old(store).current_batch && final(store).unbond_history@ == old(store).unbond_history@ && final(store).unbond_waitlist.entries@
            == old(store).unbond_waitlist.entries@,
{
    match lex_cmp(caller, &store.config.creator) {
        Cmp::Equal => {},
        _ => {
            return Err(Error::Unauthorized);
        },
    }
    let old_config = take_config(&mut store.config);
    let new_creator = match owner {
        Some(o) => o,
        None => old_config.creator,
    };
    let new_reward = match reward_contract {
        Some(c) => Some(c),
        None => old_config.reward_contract,
    };
    let new_token = match token_contract {
        Some(c) => Some(c),
        None => old_config.token_contract,
    };
    let new_registry = match validators_registry_contract {
        Some(c) => Some(c),
        None => old_config.validators_registry_contract,
    };
    store.config = Config {
        creator: new_creator,
        reward_contract: new_reward,
        token_contract: new_token,
        validators_registry_contract: new_registry,
    };
    Ok(())
}

/// Move the config out of the store, leaving placeholder values; the caller
/// writes a full record straight back.
fn take_config(c: &mut Config) -> (r: Config)
    ensures
        r == *old(c),
{
    let mut tmp = Config {
        creator: Vec::new(),
        reward_contract: None,
        token_contract: None,
        validators_registry_contract: None,
    };
    core::mem::swap(c, &mut tmp);
    tmp
}

/// The hub's configuration, as served to the config query.
pub fn query_config(store: &HubStore) -> (r: Config)
    ensures
        r.creator@ == store.config.creator@,
        r.reward_contract is Some <==> store.config.reward_contract is Some,
        r.reward_contract matches Some(v) ==> v@ == store.config.reward_contract->0@,
        r.token_contract is Some <==> store.config.token_contract is Some,
        r.token_contract matches Some(v) ==> v@ == store.config.token_contract->0@,
        r.validators_registry_contract is Some <==> store.config.validators_registry_contract
            is Some,
        r.validators_registry_contract matches Some(v) ==> v@
            == store.config.validators_registry_contract->0@,
{
    Config {
        creator: clone_bytes(&store.config.creator),
        reward_contract: match &store.config.reward_contract {
            Some(v) => Some(clone_bytes(v)),
            None => None,
        },
        token_contract: match &store.config.token_contract {
            Some(v) => Some(clone_bytes(v)),
            None => None,
        },
        validators_registry_contract: match &store.config.validators_registry_contract {
            Some(v) => Some(clone_bytes(v)),
            None => None,
        },
    }
}

/// The engine's mutable state, as served to the state query.
pub fn query_state(store: &HubStore) -> (r: State)
    ensures
        r == store.state,
{
    store.state
}

/// The batch currently collecting unbond requests.
pub fn query_current_batch(store: &HubStore) -> (r: CurrentBatch)
    ensures
        r == store.current_batch,
{
    store.current_batch
}

/// The engine's operating parameters, as served to the parameters query.
pub fn query_params(store: &HubStore) -> (r: Parameters)
    ensures
        r.epoch_period == store.parameters.epoch_period,
        r.underlying_coin_denom@ == store.parameters.underlying_coin_denom@,
        r.unbonding_period == store.parameters.unbonding_period,
        r.peg_recovery_fee == store.parameters.peg_recovery_fee,
        r.er_threshold == store.parameters.er_threshold,
        r.reward_denom@ == store.parameters.reward_denom@,
{
    Parameters {
        epoch_period: store.parameters.epoch_period,
        underlying_coin_denom: clone_bytes(&store.parameters.underlying_coin_denom),
        unbonding_period: store.parameters.unbonding_period,
        peg_recovery_fee: store.parameters.peg_recovery_fee,
        er_threshold: store.parameters.er_threshold,
        reward_denom: clone_bytes(&store.parameters.reward_denom),
    }
}

/// The page size an unbond-history query serves for a requested limit.
pub open spec fn history_page_limit(limit: Option<u32>) -> int {
    let l = match limit {
        Some(l) => l as int,
        None => DEFAULT_HISTORY_LIMIT as int,
    };
    if l > MAX_HISTORY_LIMIT as int {
        MAX_HISTORY_LIMIT as int
    } else {
        l
    }
}

/// The first history index a query starting from this batch id serves.
pub open spec fn history_page_start(len: int, start_from: Option<u64>) -> int {
    let s = match start_from {
        Some(s) => s as int,
        None => 0,
    };
    if s <= 1 {
        0
    } else if s - 1 > len {
        len
    } else {
        s - 1
    }
}

/// One page of the unbond history, ascending by batch id: up to `limit`
/// records (default 10, capped at 30), starting at batch `start_from`
/// (inclusive; from the beginning when absent).
pub fn all_unbond_history(store: &HubStore, start_from: Option<u64>, limit: Option<u32>) -> (r:
    Vec<UnbondHistory>)
    requires
        hub_wf(*store),
    ensures
        ({
            let h = store.unbond_history@;
            let lo = history_page_start(h.len() as int, start_from);
            let lim = history_page_limit(limit);
            &&& r@.len() == (if h.len() - lo < lim {
                h.len() - lo
            } else {
                lim
            })
            &&& forall|j: int| 0 <= j < r@.len() ==> (#[trigger] r@[j]) == h[lo + j]
        }),
{
    let lim_u32 = match limit {
        Some(l) => if l > MAX_HISTORY_LIMIT {
            MAX_HISTORY_LIMIT
        } else {
            l
        },
        None => DEFAULT_HISTORY_LIMIT,
    };
    let lim = lim_u32 as usize;
    let n = store.unbond_history.len();
    let start = match start_from {
        Some(s) => s,
        None => 0,
    };
    let lo: usize = if start <= 1 {
        0
    } else if start - 1 > n as u64 {
        n
    } else {
        (start - 1) as usize
    };
    let end = if n - lo < lim {
        n
    } else {
        lo + lim
    };
    let mut out: Vec<UnbondHistory> = Vec::new();
    let mut i: usize = lo;
    while i < end
        invariant
            lo <= i <= end <= n,
            n == store.unbond_history@.len(),
            out@.len() == i - lo,
            forall|j: int|
                0 <= j < out@.len() ==> (#[trigger] out@[j]) == store.unbond_history@[lo + j],
        decreases end - i,
    {
        out.push(store.unbond_history[i]);
        i = i + 1;
    }
    out
}

/// One page of the unbond history, as served to the all-history query.
pub fn query_unbond_requests_limitation(
    store: &HubStore,
    start_from: Option<u64>,
    limit: Option<u32>,
) -> (r: Vec<UnbondHistory>)
    requires
        hub_wf(*store),
    ensures
        ({
            let h = store.unbond_history@;
            let lo = history_page_start(h.len() as int, start_from);
            let lim = history_page_limit(limit);
            &&& r@.len() == (if h.len() - lo < lim {
                h.len() - lo
            } else {
                lim
            })
            &&& forall|j: int| 0 <= j < r@.len() ==> (#[trigger] r@[j]) == h[lo + j]
        }),
{
    all_unbond_history(store, start_from, limit)
}

} // verus!
