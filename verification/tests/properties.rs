//! Concrete checks of the ledger's stated properties: settlement pays
//! exactly balance x index-delta, the global index never falls, and what is
//! claimed plus what stays pending accounts for everything distributed.

use basset_core::fixed::{Decimal, DECIMAL_FRACTIONAL};
use basset_core::holders::Holder;
use basset_core::reward::{
    execute_claim_rewards, execute_increase_balance, execute_update_global_index, instantiate,
    query_holder, query_state, settle, RewardStore,
};

const HUB_CONTRACT: &[u8] = b"hubcontract";
const TOKEN_CONTRACT: &[u8] = b"tokencontract";

fn dec(atto: u128) -> Decimal {
    Decimal { atto }
}

fn default_init() -> RewardStore {
    instantiate(
        HUB_CONTRACT.to_vec(),
        b"uusd".to_vec(),
        b"astroport_addr".to_vec(),
        b"phoenix_addr".to_vec(),
        b"terraswap_addr".to_vec(),
    )
}

fn increase(store: &mut RewardStore, addr: &[u8], amount: u128) {
    execute_increase_balance(
        store,
        &TOKEN_CONTRACT.to_vec(),
        &TOKEN_CONTRACT.to_vec(),
        &addr.to_vec(),
        amount,
    )
    .unwrap();
}

#[test]
fn settle_pays_balance_times_index_delta() {
    // balance 5, last settled at 0.5, pending 0.25; settling at 1.0 adds
    // exactly 5 x (1.0 - 0.5) = 2.5
    let mut holder = Holder {
        balance: 5,
        index: dec(DECIMAL_FRACTIONAL / 2),
        pending_rewards: dec(DECIMAL_FRACTIONAL / 4),
    };
    settle(&mut holder, dec(DECIMAL_FRACTIONAL)).unwrap();
    assert_eq!(holder.pending_rewards, dec(DECIMAL_FRACTIONAL / 4 + 5 * (DECIMAL_FRACTIONAL / 2)));
    assert_eq!(holder.index, dec(DECIMAL_FRACTIONAL));
    assert_eq!(holder.balance, 5);
}

#[test]
fn global_index_never_falls() {
    let mut store = default_init();
    increase(&mut store, b"addr0000", 7);

    let mut last = query_state(&store).global_index.atto;
    for observed in [10u128, 10, 11, 25, 25, 26] {
        execute_update_global_index(&mut store, &HUB_CONTRACT.to_vec(), observed).unwrap();
        let now = query_state(&store).global_index.atto;
        assert!(now >= last);
        last = now;
    }
}

#[test]
fn claims_and_pending_account_for_everything_distributed() {
    let mut store = default_init();
    increase(&mut store, b"addr0000", 3);
    increase(&mut store, b"addr0001", 7);

    // distribute 11 against a tracked balance of 10: the index rises by 1.1
    execute_update_global_index(&mut store, &HUB_CONTRACT.to_vec(), 11).unwrap();

    let paid0 = match execute_claim_rewards(&mut store, &b"addr0000".to_vec(), None).unwrap() {
        basset_core::msgs::OutMsg::Send { amount, .. } => amount,
        _ => panic!("a claim pays with a transfer"),
    };
    let paid1 = match execute_claim_rewards(&mut store, &b"addr0001".to_vec(), None).unwrap() {
        basset_core::msgs::OutMsg::Send { amount, .. } => amount,
        _ => panic!("a claim pays with a transfer"),
    };
    assert_eq!(paid0, 3);
    assert_eq!(paid1, 7);

    let pending0 = query_holder(&store, &b"addr0000".to_vec()).pending_rewards.atto;
    let pending1 = query_holder(&store, &b"addr0001".to_vec()).pending_rewards.atto;
    assert_eq!(pending0, 3 * DECIMAL_FRACTIONAL / 10);
    assert_eq!(pending1, 7 * DECIMAL_FRACTIONAL / 10);

    // claimed plus still-pending equals the 11 distributed, exactly
    let claimed_atto = (paid0 + paid1) * DECIMAL_FRACTIONAL;
    assert_eq!(claimed_atto + pending0 + pending1, 11 * DECIMAL_FRACTIONAL);
}

#[test]
fn zero_claim_is_a_no_op_transfer() {
    let mut store = default_init();
    let msg = execute_claim_rewards(&mut store, &b"addr0000".to_vec(), None).unwrap();
    assert_eq!(
        msg,
        basset_core::msgs::OutMsg::Send {
            recipient: b"addr0000".to_vec(),
            denom: b"uusd".to_vec(),
            amount: 0,
        }
    );
}
