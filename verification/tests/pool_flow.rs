use och_staking::contract::{execute, instantiate, query};
use och_staking::msg::{Coin, ExecuteMsg, InstantiateMsg, QueryAnswer, QueryMsg};

const ADDRESS1: &str = "orai1kwyeufzwmwgqwy2aa7ycv4wxaglwd38lkepa05";
const ADDRESS2: &str = "orai1acsj7emfhkcn8vzjrm8j8qkdh3czdgutpxdent";

fn coins(amount: u128, denom: &str) -> Vec<Coin> {
    vec![Coin { denom: denom.to_string(), amount }]
}

fn reward_of(state: &och_staking::state::ContractState, now: u64, account: &str) -> u128 {
    match query(state, now, QueryMsg::ViewReward { account: account.to_string() }).unwrap() {
        QueryAnswer::Reward(v) => v.reward,
        _ => panic!("unexpected answer"),
    }
}

fn balance_of(state: &och_staking::state::ContractState, now: u64, address: &str) -> u128 {
    match query(state, now, QueryMsg::CheckStakeAmount { address: address.to_string() }).unwrap() {
        QueryAnswer::StakeAmount(v) => v.balance,
        _ => panic!("unexpected answer"),
    }
}

#[test]
fn test() {
    let t0: u64 = 1571797419;
    let msg = InstantiateMsg {
        admin: Some(ADDRESS1.to_string()),
        updater: Some(ADDRESS2.to_string()),
        rps: Some(2323),
        oracle: Some(2920000),
    };
    let mut state = instantiate(msg, ADDRESS1.to_string(), t0);
    assert_eq!(state.config.admin, ADDRESS1);
    assert_eq!(state.config.updater, ADDRESS2);
    assert_eq!(state.reward.last_update, t0);
    assert_eq!(state.reward.rps, 2323);

    // user2 stakes 10 orai at t0
    let sender2 = ADDRESS2.to_string();
    execute(&mut state, t0, &sender2, &coins(10, "orai"), ExecuteMsg::Stake {}).unwrap();
    assert_eq!(state.reward.total_stake, 10);
    assert_eq!(balance_of(&state, t0, ADDRESS2), 10);

    // 100 seconds later user2 owns the whole pool, so its pending reward is
    // the whole emission: 2323 * 100
    assert_eq!(reward_of(&state, t0 + 100, ADDRESS2), 232300);
    assert_eq!(balance_of(&state, t0 + 100, ADDRESS2), 10);

    // user1 stakes 10 orai at t0+100: the ledger settles first
    let sender1 = ADDRESS1.to_string();
    execute(&mut state, t0 + 100, &sender1, &coins(10, "orai"), ExecuteMsg::Stake {}).unwrap();
    assert_eq!(state.reward.cur_sum_index, 23_230_000_000);
    assert_eq!(state.reward.total_stake, 20);
    assert_eq!(balance_of(&state, t0 + 100, ADDRESS1), 10);

    // 100 more seconds: user1 owns half the pool and earns half the new
    // emission; user2 keeps its old accrual plus the other half
    assert_eq!(reward_of(&state, t0 + 200, ADDRESS1), 116150);
    assert_eq!(reward_of(&state, t0 + 200, ADDRESS2), 232300 + 116150);
}

#[test]
fn zero_stake_window_is_forfeited() {
    let t0: u64 = 5000;
    let msg = InstantiateMsg { admin: None, updater: None, rps: Some(1000), oracle: None };
    let mut state = instantiate(msg, "pool_admin".to_string(), t0);

    // nothing is staked for 500 seconds; that emission is credited to no one
    let staker = "first_staker".to_string();
    execute(&mut state, t0 + 500, &staker, &coins(10, "orai"), ExecuteMsg::Stake {}).unwrap();
    assert_eq!(state.reward.cur_sum_index, 0);
    assert_eq!(state.reward.last_update, t0 + 500);
    assert_eq!(reward_of(&state, t0 + 500, "first_staker"), 0);

    // from then on the staker earns the full emission
    assert_eq!(reward_of(&state, t0 + 600, "first_staker"), 100000);
}
