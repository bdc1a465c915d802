use basset_core::error::{Error, Reference, Violation};
use basset_core::fixed::{Decimal, DECIMAL_FRACTIONAL};
use basset_core::hub::{
    execute_bond, execute_redelegate_proxy, execute_slashing, execute_update_config,
    execute_update_params, instantiate, query_current_batch, query_state,
    query_unbond_requests_limitation, HubStore,
};
use basset_core::msgs::{Coin, OutMsg};
use basset_core::unbond::{
    execute_unbond, execute_withdraw_unbonded, query_unbond_requests,
    query_withdrawable_unbonded, receive_cw20, Cw20HookMsg, Cw20ReceiveMsg,
};

const OWNER: &[u8] = b"owner0000";
const TOKEN_CONTRACT: &[u8] = b"tokencontract";
const REGISTRY_CONTRACT: &[u8] = b"registrycontract";
const REWARD_CONTRACT: &[u8] = b"rewardcontract";
const UNDERLYING: &[u8] = b"uluna";

fn dec(atto: u128) -> Decimal {
    Decimal { atto }
}

fn one() -> Decimal {
    Decimal { atto: DECIMAL_FRACTIONAL }
}

/// A hub with epoch period 10, unbonding period 100, no peg-recovery fee,
/// and all collaborators registered.
fn default_hub(now: u64) -> HubStore {
    let mut hub = instantiate(
        OWNER.to_vec(),
        now,
        10,
        UNDERLYING.to_vec(),
        100,
        dec(0),
        one(),
        b"uusd".to_vec(),
    )
    .unwrap();
    execute_update_config(
        &mut hub,
        &OWNER.to_vec(),
        None,
        Some(REWARD_CONTRACT.to_vec()),
        Some(TOKEN_CONTRACT.to_vec()),
        Some(REGISTRY_CONTRACT.to_vec()),
    )
    .unwrap();
    hub
}

#[test]
fn instantiate_rejects_fee_above_one() {
    let res = instantiate(
        OWNER.to_vec(),
        0,
        10,
        UNDERLYING.to_vec(),
        100,
        dec(DECIMAL_FRACTIONAL + 1),
        one(),
        b"uusd".to_vec(),
    );
    match res {
        Err(Error::InvariantViolation(Violation::FeeAboveOne)) => {}
        _ => panic!("a peg-recovery fee above 1 must be refused"),
    }
}

#[test]
fn bond_mints_at_exchange_rate() {
    let mut hub = default_hub(0);

    let msgs = execute_bond(&mut hub, &b"addr0000".to_vec(), 1000, &UNDERLYING.to_vec()).unwrap();
    assert_eq!(
        msgs,
        vec![
            OutMsg::Delegate { amount: 1000 },
            OutMsg::MintDerivative { recipient: b"addr0000".to_vec(), amount: 1000 },
        ]
    );

    let state = query_state(&hub);
    assert_eq!(state.total_bond_amount, 1000);
    // bonding alone leaves the exchange rate untouched
    assert_eq!(state.exchange_rate, one());
}

#[test]
fn bond_rejects_zero_and_wrong_denom() {
    let mut hub = default_hub(0);

    match execute_bond(&mut hub, &b"addr0000".to_vec(), 0, &UNDERLYING.to_vec()) {
        Err(Error::InvariantViolation(Violation::ZeroAmount)) => {}
        _ => panic!("zero bond must be refused"),
    }
    match execute_bond(&mut hub, &b"addr0000".to_vec(), 10, &b"uusd".to_vec()) {
        Err(Error::InvariantViolation(Violation::DenomMismatch)) => {}
        _ => panic!("wrong denomination must be refused"),
    }
}

#[test]
fn bond_requires_registered_collaborators() {
    let mut hub = instantiate(
        OWNER.to_vec(),
        0,
        10,
        UNDERLYING.to_vec(),
        100,
        dec(0),
        one(),
        b"uusd".to_vec(),
    )
    .unwrap();
    match execute_bond(&mut hub, &b"addr0000".to_vec(), 10, &UNDERLYING.to_vec()) {
        Err(Error::Uninitialized(Reference::Token)) => {}
        _ => panic!("bonding before the token contract is registered must be refused"),
    }
}

#[test]
fn unbond_accumulates_and_submits_batches() {
    let mut hub = default_hub(0);
    execute_bond(&mut hub, &b"addr0000".to_vec(), 1000, &UNDERLYING.to_vec()).unwrap();

    // now = 5: the epoch (10) has not passed, so the request only joins the
    // open batch.
    let msgs = execute_unbond(
        &mut hub,
        &TOKEN_CONTRACT.to_vec(),
        &b"addr0000".to_vec(),
        300,
        5,
        1000,
    )
    .unwrap();
    assert_eq!(msgs, vec![OutMsg::BurnDerivative { amount: 300 }]);
    let batch = query_current_batch(&hub);
    assert_eq!(batch.id, 1);
    assert_eq!(batch.requested_with_fee, 300);
    assert_eq!(query_state(&hub).exchange_rate, one());

    // now = 12: the epoch has passed, so this request submits batch 1.
    let msgs = execute_unbond(
        &mut hub,
        &TOKEN_CONTRACT.to_vec(),
        &b"addr0000".to_vec(),
        200,
        12,
        700,
    )
    .unwrap();
    assert_eq!(
        msgs,
        vec![
            OutMsg::Undelegate { amount: 500 },
            OutMsg::WithdrawAllRewards,
            OutMsg::BurnDerivative { amount: 200 },
        ]
    );
    let batch = query_current_batch(&hub);
    assert_eq!(batch.id, 2);
    assert_eq!(batch.requested_with_fee, 0);
    let state = query_state(&hub);
    assert_eq!(state.total_bond_amount, 500);
    // 500 bonded against 500 issued: the rate stays at 1.0
    assert_eq!(state.exchange_rate, one());
    assert_eq!(state.last_processed_batch, 1);
    assert_eq!(state.last_unbonded_time, 12);

    let requests = query_unbond_requests(&hub, &b"addr0000".to_vec());
    assert_eq!(requests, vec![(1, 500)]);
}

#[test]
fn unbond_rejects_unauthorized_and_zero() {
    let mut hub = default_hub(0);
    match execute_unbond(&mut hub, &b"addr0000".to_vec(), &b"addr0000".to_vec(), 10, 0, 100) {
        Err(Error::Unauthorized) => {}
        _ => panic!("only the token contract may unbond"),
    }
    match execute_unbond(&mut hub, &TOKEN_CONTRACT.to_vec(), &b"addr0000".to_vec(), 0, 0, 100) {
        Err(Error::InvariantViolation(Violation::ZeroAmount)) => {}
        _ => panic!("zero unbond must be refused"),
    }
}

#[test]
fn receive_cw20_dispatches_unbond() {
    let mut hub = default_hub(0);
    execute_bond(&mut hub, &b"addr0000".to_vec(), 1000, &UNDERLYING.to_vec()).unwrap();

    let deposit = Cw20ReceiveMsg {
        sender: b"addr0000".to_vec(),
        amount: 300,
        msg: Cw20HookMsg::Unbond,
    };
    let msgs = receive_cw20(&mut hub, &TOKEN_CONTRACT.to_vec(), &deposit, 5, 1000).unwrap();
    assert_eq!(msgs, vec![OutMsg::BurnDerivative { amount: 300 }]);
    assert_eq!(query_current_batch(&hub).requested_with_fee, 300);
}

#[test]
fn withdraw_unbonded_pays_once() {
    let mut hub = default_hub(0);
    execute_bond(&mut hub, &b"addr0000".to_vec(), 1000, &UNDERLYING.to_vec()).unwrap();
    execute_unbond(&mut hub, &TOKEN_CONTRACT.to_vec(), &b"addr0000".to_vec(), 300, 5, 1000)
        .unwrap();
    // submits batch 1 with 500 requested at rate 1.0
    execute_unbond(&mut hub, &TOKEN_CONTRACT.to_vec(), &b"addr0000".to_vec(), 200, 12, 700)
        .unwrap();

    // not yet matured: submitted at 12, unbonding period 100
    assert_eq!(query_withdrawable_unbonded(&hub, &b"addr0000".to_vec(), 50).unwrap(), 0);
    let (amount, msgs) =
        execute_withdraw_unbonded(&mut hub, &b"addr0000".to_vec(), 50, 600).unwrap();
    assert_eq!(amount, 0);
    assert_eq!(msgs, vec![]);

    // matured at 112
    assert_eq!(query_withdrawable_unbonded(&hub, &b"addr0000".to_vec(), 112).unwrap(), 500);
    let (amount, msgs) =
        execute_withdraw_unbonded(&mut hub, &b"addr0000".to_vec(), 112, 600).unwrap();
    assert_eq!(amount, 500);
    assert_eq!(
        msgs,
        vec![OutMsg::Send {
            recipient: b"addr0000".to_vec(),
            denom: UNDERLYING.to_vec(),
            amount: 500,
        }]
    );
    assert_eq!(query_state(&hub).prev_hub_balance, 100);

    // a second withdrawal for the same matured batch finds nothing: a
    // normal zero result, not an error
    let (amount, msgs) =
        execute_withdraw_unbonded(&mut hub, &b"addr0000".to_vec(), 112, 100).unwrap();
    assert_eq!(amount, 0);
    assert_eq!(msgs, vec![]);
    assert_eq!(query_unbond_requests(&hub, &b"addr0000".to_vec()), vec![]);
}

#[test]
fn peg_recovery_fee_haircuts_unbonds() {
    // fee 10%, threshold 1.0
    let mut hub = instantiate(
        OWNER.to_vec(),
        0,
        10,
        UNDERLYING.to_vec(),
        100,
        dec(DECIMAL_FRACTIONAL / 10),
        one(),
        b"uusd".to_vec(),
    )
    .unwrap();
    execute_update_config(
        &mut hub,
        &OWNER.to_vec(),
        None,
        Some(REWARD_CONTRACT.to_vec()),
        Some(TOKEN_CONTRACT.to_vec()),
        Some(REGISTRY_CONTRACT.to_vec()),
    )
    .unwrap();
    execute_bond(&mut hub, &b"addr0000".to_vec(), 1000, &UNDERLYING.to_vec()).unwrap();

    // push the rate below the threshold: 900 actually bonded against 1000
    // issued gives 0.9
    let dels = vec![Coin { denom: UNDERLYING.to_vec(), amount: 900 }];
    execute_slashing(&mut hub, &dels, 1000).unwrap();
    assert_eq!(query_state(&hub).exchange_rate, dec(DECIMAL_FRACTIONAL / 10 * 9));

    // the fee now applies: 100 x (1 - 0.1) = 90 joins the batch, and the
    // epoch has passed, so batch 1 is submitted at the 0.9 withdraw rate
    let msgs =
        execute_unbond(&mut hub, &TOKEN_CONTRACT.to_vec(), &b"addr0000".to_vec(), 100, 12, 1000)
            .unwrap();
    // undelegate floor(90 x 0.9) = 81
    assert_eq!(msgs[0], OutMsg::Undelegate { amount: 81 });
    assert_eq!(query_current_batch(&hub).id, 2);

    // once matured, the entry converts at the recorded 0.9 rate:
    // floor(90 x 0.9) = 81
    assert_eq!(query_withdrawable_unbonded(&hub, &b"addr0000".to_vec(), 112).unwrap(), 81);
    let (amount, _msgs) =
        execute_withdraw_unbonded(&mut hub, &b"addr0000".to_vec(), 112, 81).unwrap();
    assert_eq!(amount, 81);
}

#[test]
fn update_global_requires_reward_contract() {
    let mut hub = instantiate(
        OWNER.to_vec(),
        0,
        10,
        UNDERLYING.to_vec(),
        100,
        dec(0),
        one(),
        b"uusd".to_vec(),
    )
    .unwrap();
    match basset_core::hub::execute_update_global(&mut hub, 7, &vec![b"validator1".to_vec()]) {
        Err(Error::Uninitialized(Reference::Reward)) => {}
        _ => panic!("refreshing rewards needs the reward ledger registered"),
    }
}

#[test]
fn redelegate_proxy_requires_registry() {
    let hub = instantiate(
        OWNER.to_vec(),
        0,
        10,
        UNDERLYING.to_vec(),
        100,
        dec(0),
        one(),
        b"uusd".to_vec(),
    )
    .unwrap();
    match execute_redelegate_proxy(&hub, &OWNER.to_vec(), &b"validator1".to_vec(), &vec![]) {
        Err(Error::Uninitialized(Reference::ValidatorsRegistry)) => {}
        _ => panic!("redelegating needs the registry registered"),
    }
}

#[test]
fn slashing_absorbs_losses_and_is_idempotent() {
    let mut hub = default_hub(0);
    execute_bond(&mut hub, &b"addr0000".to_vec(), 1000, &UNDERLYING.to_vec()).unwrap();

    // no delegations reported: "not yet bonded", a no-op
    let rate = execute_slashing(&mut hub, &vec![], 1000).unwrap();
    assert_eq!(rate, one());
    assert_eq!(query_state(&hub).total_bond_amount, 1000);

    // 900 actually bonded in the underlying denomination (a foreign
    // denomination does not count), 1000 issued: the rate drops to 0.9
    let dels = vec![
        Coin { denom: b"uusd".to_vec(), amount: 5000 },
        Coin { denom: UNDERLYING.to_vec(), amount: 900 },
    ];
    let rate = execute_slashing(&mut hub, &dels, 1000).unwrap();
    assert_eq!(rate, dec(DECIMAL_FRACTIONAL / 10 * 9));
    assert_eq!(query_state(&hub).total_bond_amount, 900);

    // the same observations again change nothing
    let state_before = query_state(&hub);
    let rate = execute_slashing(&mut hub, &dels, 1000).unwrap();
    assert_eq!(rate, dec(DECIMAL_FRACTIONAL / 10 * 9));
    assert_eq!(query_state(&hub), state_before);

    // bonding at the new rate mints amount / 0.9
    let msgs = execute_bond(&mut hub, &b"addr0001".to_vec(), 90, &UNDERLYING.to_vec()).unwrap();
    assert_eq!(
        msgs[1],
        OutMsg::MintDerivative { recipient: b"addr0001".to_vec(), amount: 100 }
    );
    // bonding alone leaves the exchange rate unchanged
    assert_eq!(query_state(&hub).exchange_rate, dec(DECIMAL_FRACTIONAL / 10 * 9));
}

#[test]
fn redelegate_proxy_is_gated() {
    let hub = default_hub(0);

    let redelegations = vec![(
        b"validator2".to_vec(),
        Coin { denom: UNDERLYING.to_vec(), amount: 70 },
    )];
    match execute_redelegate_proxy(
        &hub,
        &b"addr0000".to_vec(),
        &b"validator1".to_vec(),
        &redelegations,
    ) {
        Err(Error::Unauthorized) => {}
        _ => panic!("only the registry and the owner may redelegate"),
    }

    let msgs = execute_redelegate_proxy(
        &hub,
        &REGISTRY_CONTRACT.to_vec(),
        &b"validator1".to_vec(),
        &redelegations,
    )
    .unwrap();
    assert_eq!(
        msgs,
        vec![OutMsg::Redelegate {
            src_validator: b"validator1".to_vec(),
            dst_validator: b"validator2".to_vec(),
            denom: UNDERLYING.to_vec(),
            amount: 70,
        }]
    );
}

#[test]
fn update_params_is_gated_and_checks_fee() {
    let mut hub = default_hub(0);

    match execute_update_params(&mut hub, &b"addr0000".to_vec(), Some(20), None, None) {
        Err(Error::Unauthorized) => {}
        _ => panic!("only the owner may update parameters"),
    }
    match execute_update_params(
        &mut hub,
        &OWNER.to_vec(),
        None,
        Some(dec(2 * DECIMAL_FRACTIONAL)),
        None,
    ) {
        Err(Error::InvariantViolation(Violation::FeeAboveOne)) => {}
        _ => panic!("a peg-recovery fee above 1 must be refused"),
    }
    execute_update_params(&mut hub, &OWNER.to_vec(), Some(20), None, None).unwrap();
    assert_eq!(basset_core::hub::query_params(&hub).epoch_period, 20);
}

#[test]
fn all_history_pages() {
    let mut hub = default_hub(0);
    execute_bond(&mut hub, &b"addr0000".to_vec(), 1000, &UNDERLYING.to_vec()).unwrap();

    // submit batch 1 at t = 12 and batch 2 at t = 25
    execute_unbond(&mut hub, &TOKEN_CONTRACT.to_vec(), &b"addr0000".to_vec(), 100, 12, 1000)
        .unwrap();
    execute_unbond(&mut hub, &TOKEN_CONTRACT.to_vec(), &b"addr0000".to_vec(), 100, 25, 900)
        .unwrap();

    let all = query_unbond_requests_limitation(&hub, None, None);
    assert_eq!(all.len(), 2);
    assert_eq!(all[0].batch_id, 1);
    assert_eq!(all[0].time, 12);
    assert_eq!(all[0].amount, 100);
    assert_eq!(all[1].batch_id, 2);
    assert_eq!(all[1].time, 25);

    let page = query_unbond_requests_limitation(&hub, Some(2), None);
    assert_eq!(page.len(), 1);
    assert_eq!(page[0].batch_id, 2);

    let page = query_unbond_requests_limitation(&hub, None, Some(1));
    assert_eq!(page.len(), 1);
    assert_eq!(page[0].batch_id, 1);
}

#[test]
fn update_global_index_needs_observed_growth() {
    // an observed reward balance below the recorded one aborts the update
    let mut store = basset_core::reward::instantiate(
        b"hubcontract".to_vec(),
        b"uusd".to_vec(),
        b"astroport_addr".to_vec(),
        b"phoenix_addr".to_vec(),
        b"terraswap_addr".to_vec(),
    );
    basset_core::reward::store_state(
        &mut store,
        basset_core::reward::State {
            global_index: dec(0),
            total_balance: 100,
            prev_reward_balance: 50,
        },
    );
    match basset_core::reward::execute_update_global_index(
        &mut store,
        &b"hubcontract".to_vec(),
        40,
    ) {
        Err(Error::InvariantViolation(Violation::Arithmetic)) => {}
        _ => panic!("a shrunk observed balance must abort the update"),
    }
}
