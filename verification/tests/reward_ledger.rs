use basset_core::error::{Error, Violation};
use basset_core::fixed::{Decimal, DECIMAL_FRACTIONAL};
use basset_core::holders::{Holder, HolderResponse};
use basset_core::msgs::{Coin, OutMsg};
use basset_core::reward::{
    execute_claim_rewards, execute_decrease_balance, execute_increase_balance, execute_swap,
    execute_update_global_index, instantiate, query_config, query_holder, query_state,
    store_holder, store_state, RewardStore, State,
};

const HUB_CONTRACT: &[u8] = b"hubcontract";
const TOKEN_CONTRACT: &[u8] = b"tokencontract";
const DEFAULT_REWARD_DENOM: &[u8] = b"uusd";

fn default_init() -> RewardStore {
    instantiate(
        HUB_CONTRACT.to_vec(),
        DEFAULT_REWARD_DENOM.to_vec(),
        b"astroport_addr".to_vec(),
        b"phoenix_addr".to_vec(),
        b"terraswap_addr".to_vec(),
    )
}

fn dec(atto: u128) -> Decimal {
    Decimal { atto }
}

fn whole(units: u128) -> Decimal {
    Decimal { atto: units * DECIMAL_FRACTIONAL }
}

#[test]
fn proper_init() {
    let store = default_init();

    let config = query_config(&store);
    assert_eq!(config.hub_contract, HUB_CONTRACT.to_vec());
    assert_eq!(config.reward_denom, DEFAULT_REWARD_DENOM.to_vec());

    let state = query_state(&store);
    assert_eq!(
        state,
        State { global_index: dec(0), total_balance: 0, prev_reward_balance: 0 }
    );
}

#[test]
fn swap_to_reward_denom() {
    let store = default_init();

    let balances = vec![
        Coin { denom: b"uusd".to_vec(), amount: 100 },
        Coin { denom: b"ukrw".to_vec(), amount: 1000 },
        Coin { denom: b"usdr".to_vec(), amount: 50 },
        Coin { denom: b"mnt".to_vec(), amount: 50 },
        Coin { denom: b"uinr".to_vec(), amount: 50 },
    ];
    // The venues can route every observed denomination except mnt.
    let swappable = vec![b"ukrw".to_vec(), b"usdr".to_vec(), b"uinr".to_vec()];

    let msgs = execute_swap(&store, &balances, &swappable);
    assert_eq!(
        msgs,
        vec![
            OutMsg::Swap {
                offer_denom: b"ukrw".to_vec(),
                ask_denom: b"uusd".to_vec(),
                amount: 1000,
            },
            OutMsg::Swap {
                offer_denom: b"usdr".to_vec(),
                ask_denom: b"uusd".to_vec(),
                amount: 50,
            },
            OutMsg::Swap {
                offer_denom: b"uinr".to_vec(),
                ask_denom: b"uusd".to_vec(),
                amount: 50,
            },
        ]
    );
}

#[test]
fn update_global_index() {
    let mut store = default_init();

    // Failed unauthorized try
    let res = execute_update_global_index(&mut store, &b"addr0000".to_vec(), 100);
    match res {
        Err(_e) => {}
        _ => panic!("DO NOT ENTER HERE"),
    }

    // Failed zero staking balance
    let res = execute_update_global_index(&mut store, &HUB_CONTRACT.to_vec(), 100);
    match res {
        Err(Error::InvariantViolation(Violation::NoAssetBonded)) => {}
        _ => panic!("DO NOT ENTER HERE"),
    }

    store_state(
        &mut store,
        State { global_index: dec(0), total_balance: 100, prev_reward_balance: 0 },
    );

    // claimed_rewards = 100, total_balance = 100
    // global_index == 1
    execute_update_global_index(&mut store, &HUB_CONTRACT.to_vec(), 100).unwrap();

    let state = query_state(&store);
    assert_eq!(
        state,
        State { global_index: whole(1), total_balance: 100, prev_reward_balance: 100 }
    );
}

#[test]
fn increase_balance() {
    let mut store = default_init();

    let res = execute_increase_balance(
        &mut store,
        &b"addr0000".to_vec(),
        &TOKEN_CONTRACT.to_vec(),
        &b"addr0000".to_vec(),
        100,
    );
    match res {
        Err(_e) => {}
        _ => panic!("DO NOT ENTER HERE"),
    }

    execute_increase_balance(
        &mut store,
        &TOKEN_CONTRACT.to_vec(),
        &TOKEN_CONTRACT.to_vec(),
        &b"addr0000".to_vec(),
        100,
    )
    .unwrap();

    let holder = query_holder(&store, &b"addr0000".to_vec());
    assert_eq!(
        holder,
        HolderResponse {
            address: b"addr0000".to_vec(),
            balance: 100,
            index: dec(0),
            pending_rewards: dec(0),
        }
    );

    // claimed_rewards = 100, total_balance = 100
    // global_index == 1
    execute_update_global_index(&mut store, &HUB_CONTRACT.to_vec(), 100).unwrap();

    execute_increase_balance(
        &mut store,
        &TOKEN_CONTRACT.to_vec(),
        &TOKEN_CONTRACT.to_vec(),
        &b"addr0000".to_vec(),
        100,
    )
    .unwrap();

    let holder = query_holder(&store, &b"addr0000".to_vec());
    assert_eq!(
        holder,
        HolderResponse {
            address: b"addr0000".to_vec(),
            balance: 200,
            index: whole(1),
            pending_rewards: whole(100),
        }
    );
}

#[test]
fn increase_balance_with_decimals() {
    let mut store = default_init();

    let res = execute_increase_balance(
        &mut store,
        &b"addr0000".to_vec(),
        &TOKEN_CONTRACT.to_vec(),
        &b"addr0000".to_vec(),
        11,
    );
    match res {
        Err(_e) => {}
        _ => panic!("DO NOT ENTER HERE"),
    }

    execute_increase_balance(
        &mut store,
        &TOKEN_CONTRACT.to_vec(),
        &TOKEN_CONTRACT.to_vec(),
        &b"addr0000".to_vec(),
        11,
    )
    .unwrap();

    let holder = query_holder(&store, &b"addr0000".to_vec());
    assert_eq!(
        holder,
        HolderResponse {
            address: b"addr0000".to_vec(),
            balance: 11,
            index: dec(0),
            pending_rewards: dec(0),
        }
    );

    // claimed_rewards = 100000 , total_balance = 11
    execute_update_global_index(&mut store, &HUB_CONTRACT.to_vec(), 100000).unwrap();

    execute_increase_balance(
        &mut store,
        &TOKEN_CONTRACT.to_vec(),
        &TOKEN_CONTRACT.to_vec(),
        &b"addr0000".to_vec(),
        10,
    )
    .unwrap();

    let holder = query_holder(&store, &b"addr0000".to_vec());
    let index = Decimal::from_ratio(100000, 11).unwrap();
    // pending = 11 x (index - 0), held exactly at the decimal scale
    let user_pend_reward = dec(11 * index.atto);
    assert_eq!(
        holder,
        HolderResponse {
            address: b"addr0000".to_vec(),
            balance: 21,
            index,
            pending_rewards: user_pend_reward,
        }
    );
}

#[test]
fn decrease_balance() {
    let mut store = default_init();

    // Failed unauthorized
    let res = execute_decrease_balance(
        &mut store,
        &b"addr0000".to_vec(),
        &TOKEN_CONTRACT.to_vec(),
        &b"addr0000".to_vec(),
        100,
    );
    match res {
        Err(_e) => {}
        _ => panic!("DO NOT ENTER HERE"),
    }

    // Failed underflow
    let res = execute_decrease_balance(
        &mut store,
        &TOKEN_CONTRACT.to_vec(),
        &TOKEN_CONTRACT.to_vec(),
        &b"addr0000".to_vec(),
        100,
    );
    match res {
        Err(Error::InvariantViolation(Violation::DecreaseExceedsBalance { available })) => {
            assert_eq!(available, 0)
        }
        _ => panic!("DO NOT ENTER HERE"),
    }

    // Increase balance first
    execute_increase_balance(
        &mut store,
        &TOKEN_CONTRACT.to_vec(),
        &TOKEN_CONTRACT.to_vec(),
        &b"addr0000".to_vec(),
        100,
    )
    .unwrap();

    // claimed_rewards = 100, total_balance = 100
    // global_index == 1
    execute_update_global_index(&mut store, &HUB_CONTRACT.to_vec(), 100).unwrap();

    execute_decrease_balance(
        &mut store,
        &TOKEN_CONTRACT.to_vec(),
        &TOKEN_CONTRACT.to_vec(),
        &b"addr0000".to_vec(),
        100,
    )
    .unwrap();

    let holder = query_holder(&store, &b"addr0000".to_vec());
    assert_eq!(
        holder,
        HolderResponse {
            address: b"addr0000".to_vec(),
            balance: 0,
            index: whole(1),
            pending_rewards: whole(100),
        }
    );
}

#[test]
fn claim_rewards() {
    let mut store = default_init();

    execute_increase_balance(
        &mut store,
        &TOKEN_CONTRACT.to_vec(),
        &TOKEN_CONTRACT.to_vec(),
        &b"addr0000".to_vec(),
        100,
    )
    .unwrap();

    let holder = query_holder(&store, &b"addr0000".to_vec());
    assert_eq!(
        holder,
        HolderResponse {
            address: b"addr0000".to_vec(),
            balance: 100,
            index: dec(0),
            pending_rewards: dec(0),
        }
    );

    // claimed_rewards = 100, total_balance = 100
    // global_index == 1
    execute_update_global_index(&mut store, &HUB_CONTRACT.to_vec(), 100).unwrap();

    let msg = execute_claim_rewards(&mut store, &b"addr0000".to_vec(), None).unwrap();
    assert_eq!(
        msg,
        OutMsg::Send {
            recipient: b"addr0000".to_vec(),
            denom: b"uusd".to_vec(),
            amount: 100,
        }
    );

    // Set recipient
    // claimed_rewards = 100, total_balance = 100
    // global_index == 1
    execute_update_global_index(&mut store, &HUB_CONTRACT.to_vec(), 100).unwrap();

    let msg =
        execute_claim_rewards(&mut store, &b"addr0000".to_vec(), Some(b"addr0001".to_vec()))
            .unwrap();
    assert_eq!(
        msg,
        OutMsg::Send {
            recipient: b"addr0001".to_vec(),
            denom: b"uusd".to_vec(),
            amount: 100,
        }
    );
}

#[test]
fn claim_rewards_with_decimals() {
    let mut store = default_init();

    execute_increase_balance(
        &mut store,
        &TOKEN_CONTRACT.to_vec(),
        &TOKEN_CONTRACT.to_vec(),
        &b"addr0000".to_vec(),
        11,
    )
    .unwrap();

    let holder = query_holder(&store, &b"addr0000".to_vec());
    assert_eq!(
        holder,
        HolderResponse {
            address: b"addr0000".to_vec(),
            balance: 11,
            index: dec(0),
            pending_rewards: dec(0),
        }
    );

    execute_update_global_index(&mut store, &HUB_CONTRACT.to_vec(), 99999).unwrap();

    let msg = execute_claim_rewards(&mut store, &b"addr0000".to_vec(), None).unwrap();
    assert_eq!(
        msg,
        OutMsg::Send {
            recipient: b"addr0000".to_vec(),
            denom: b"uusd".to_vec(),
            amount: 99998,
        }
    );

    let holder = query_holder(&store, &b"addr0000".to_vec());
    let index = Decimal::from_ratio(99999, 11).unwrap();
    // 0.999999999999999991 at the decimal scale
    assert_eq!(
        holder,
        HolderResponse {
            address: b"addr0000".to_vec(),
            balance: 11,
            index,
            pending_rewards: dec(999999999999999991),
        }
    );

    let state = query_state(&store);
    assert_eq!(
        state,
        State { global_index: index, total_balance: 11, prev_reward_balance: 1 }
    );
}

#[test]
fn query_holders() {
    let mut store = default_init();

    execute_increase_balance(
        &mut store,
        &TOKEN_CONTRACT.to_vec(),
        &TOKEN_CONTRACT.to_vec(),
        &b"addr0000".to_vec(),
        100,
    )
    .unwrap();
    execute_increase_balance(
        &mut store,
        &TOKEN_CONTRACT.to_vec(),
        &TOKEN_CONTRACT.to_vec(),
        &b"addr0001".to_vec(),
        200,
    )
    .unwrap();
    execute_increase_balance(
        &mut store,
        &TOKEN_CONTRACT.to_vec(),
        &TOKEN_CONTRACT.to_vec(),
        &b"addr0002".to_vec(),
        300,
    )
    .unwrap();

    let row = |addr: &[u8], balance: u128| HolderResponse {
        address: addr.to_vec(),
        balance,
        index: dec(0),
        pending_rewards: dec(0),
    };

    let holders = basset_core::reward::query_holders(&store, None, None);
    assert_eq!(
        holders,
        vec![row(b"addr0000", 100), row(b"addr0001", 200), row(b"addr0002", 300)]
    );

    // Set limit
    let holders = basset_core::reward::query_holders(&store, None, Some(1));
    assert_eq!(holders, vec![row(b"addr0000", 100)]);

    // Set start_after
    let holders = basset_core::reward::query_holders(&store, Some(&b"addr0000".to_vec()), None);
    assert_eq!(holders, vec![row(b"addr0001", 200), row(b"addr0002", 300)]);

    // Set start_after and limit
    let holders = basset_core::reward::query_holders(&store, Some(&b"addr0000".to_vec()), Some(1));
    assert_eq!(holders, vec![row(b"addr0001", 200)]);
}

#[test]
fn proper_prev_balance() {
    let mut store = default_init();

    let amount1: u128 = 8899999999988889;
    let amount2: u128 = 14487875351811111;
    let amount3: u128 = 1100000000000000;

    let rewards: u128 = 677101666827000000;

    let all_balance = amount1 + amount2 + amount3;

    let global_index = Decimal::from_ratio(rewards, all_balance).unwrap();
    store_state(
        &mut store,
        State { global_index, total_balance: all_balance, prev_reward_balance: rewards },
    );

    store_holder(
        &mut store,
        &b"addr0000".to_vec(),
        Holder { balance: amount1, index: dec(0), pending_rewards: dec(0) },
    );
    store_holder(
        &mut store,
        &b"addr0001".to_vec(),
        Holder { balance: amount2, index: dec(0), pending_rewards: dec(0) },
    );
    store_holder(
        &mut store,
        &b"addr0002".to_vec(),
        Holder { balance: amount3, index: dec(0), pending_rewards: dec(0) },
    );

    execute_claim_rewards(&mut store, &b"addr0000".to_vec(), None).unwrap();
    execute_claim_rewards(&mut store, &b"addr0001".to_vec(), None).unwrap();
    execute_claim_rewards(&mut store, &b"addr0002".to_vec(), None).unwrap();

    let state = query_state(&store);
    assert_eq!(
        state,
        State { global_index, total_balance: all_balance, prev_reward_balance: 1 }
    );

    let holder = query_holder(&store, &b"addr0000".to_vec());
    assert_eq!(
        holder,
        HolderResponse {
            address: b"addr0000".to_vec(),
            balance: amount1,
            index: global_index,
            pending_rewards: dec(212799238975421283),
        }
    );

    let holder = query_holder(&store, &b"addr0001".to_vec());
    assert_eq!(
        holder,
        HolderResponse {
            address: b"addr0001".to_vec(),
            balance: amount2,
            index: global_index,
            pending_rewards: dec(78595712259178717),
        }
    );

    let holder = query_holder(&store, &b"addr0002".to_vec());
    assert_eq!(
        holder,
        HolderResponse {
            address: b"addr0002".to_vec(),
            balance: amount3,
            index: global_index,
            pending_rewards: dec(701700000000000000),
        }
    );
}
