use och_staking::contract::{
    can_execute, can_query, check_stake_amount, claim_reward, execute, instantiate, query, stake,
    unstake, update_oracle, update_rps, update_user_reward, view_apr, view_reward,
};
use och_staking::error::ContractError;
use och_staking::msg::{Coin, ExecuteMsg, InstantiateMsg, QueryMsg, TransferMsg};
use och_staking::state::ContractState;

fn coins(amount: u128, denom: &str) -> Vec<Coin> {
    vec![Coin { denom: denom.to_string(), amount }]
}

fn fresh_pool(rps: u128, oracle: u128, t0: u64) -> ContractState {
    let msg = InstantiateMsg {
        admin: Some("the_admin".to_string()),
        updater: Some("the_updater".to_string()),
        rps: Some(rps),
        oracle: Some(oracle),
    };
    instantiate(msg, "the_admin".to_string(), t0)
}

#[test]
fn instantiate_defaults() {
    let msg = InstantiateMsg { admin: None, updater: None, rps: None, oracle: None };
    let state = instantiate(msg, "the_caller".to_string(), 42);
    assert_eq!(state.config.admin, "the_caller");
    assert_eq!(state.config.updater, "the_caller");
    assert_eq!(state.reward.rps, 0);
    assert_eq!(state.reward.cur_sum_index, 0);
    assert_eq!(state.reward.total_stake, 0);
    assert_eq!(state.oracle, 0);
    assert!(state.users.is_empty());

    let msg = InstantiateMsg {
        admin: Some("somebody".to_string()),
        updater: None,
        rps: None,
        oracle: None,
    };
    let state = instantiate(msg, "the_caller".to_string(), 42);
    assert_eq!(state.config.admin, "somebody");
    assert_eq!(state.config.updater, "somebody");
}

#[test]
fn stake_rejects_wrong_inputs() {
    let mut state = fresh_pool(10, 0, 0);
    let sender = "alice".to_string();

    let no_funds: Vec<Coin> = vec![];
    assert_eq!(
        stake(&mut state, 0, &sender, &no_funds),
        Err(ContractError::WrongStakeAmount {})
    );
    assert_eq!(
        stake(&mut state, 0, &sender, &coins(5, "atom")),
        Err(ContractError::WrongNativeToken {})
    );
    assert_eq!(
        stake(&mut state, 0, &sender, &coins(0, "orai")),
        Err(ContractError::WrongStakeAmount {})
    );
    // nothing was persisted
    assert_eq!(state.reward.total_stake, 0);
    assert!(state.users.is_empty());
}

#[test]
fn unstake_checks_balance() {
    let mut state = fresh_pool(10, 0, 0);
    let sender = "alice".to_string();

    // no record at all
    assert_eq!(
        unstake(&mut state, 0, &sender, 1),
        Err(ContractError::NotEnoughBalance {})
    );

    stake(&mut state, 0, &sender, &coins(5, "orai")).unwrap();
    assert_eq!(
        unstake(&mut state, 0, &sender, 6),
        Err(ContractError::NotEnoughBalance {})
    );
    assert_eq!(state.reward.total_stake, 5);
}

#[test]
fn unstake_returns_funds_and_keeps_reward() {
    let mut state = fresh_pool(100, 0, 0);
    let sender = "alice".to_string();
    stake(&mut state, 0, &sender, &coins(100, "orai")).unwrap();

    let transfer = unstake(&mut state, 50, &sender, 40).unwrap();
    assert_eq!(
        transfer,
        TransferMsg::Native { to_address: "alice".to_string(), amount: 40 }
    );
    assert_eq!(state.reward.total_stake, 60);
    assert_eq!(check_stake_amount(&state, &sender).balance, 60);
    // the accrued reward for the first 50 seconds is not auto-claimed
    assert_eq!(view_reward(&state, 50, &sender).reward, 5000);
}

#[test]
fn claim_transfers_accrued_and_resets() {
    let mut state = fresh_pool(2323, 0, 0);
    let sender = "bob".to_string();
    stake(&mut state, 0, &sender, &coins(10, "orai")).unwrap();

    let transfer = claim_reward(&mut state, 100, &sender).unwrap();
    assert_eq!(
        transfer,
        TransferMsg::Reward { recipient: "bob".to_string(), amount: 232300 }
    );
    assert_eq!(view_reward(&state, 100, &sender).reward, 0);

    // claiming again at the same instant transfers zero
    let transfer = claim_reward(&mut state, 100, &sender).unwrap();
    assert_eq!(
        transfer,
        TransferMsg::Reward { recipient: "bob".to_string(), amount: 0 }
    );

    // a claim by an account that never staked is not an error either
    let stranger = "carol".to_string();
    let transfer = claim_reward(&mut state, 100, &stranger).unwrap();
    assert_eq!(
        transfer,
        TransferMsg::Reward { recipient: "carol".to_string(), amount: 0 }
    );
}

#[test]
fn admin_operations_check_roles() {
    let mut state = fresh_pool(10, 7, 0);
    let admin = "the_admin".to_string();
    let updater = "the_updater".to_string();
    let stranger = "mallory".to_string();

    assert_eq!(
        update_rps(&mut state, 5, &stranger, 99),
        Err(ContractError::Unauthorized {})
    );
    assert_eq!(
        update_rps(&mut state, 5, &admin, 99),
        Err(ContractError::Unauthorized {})
    );
    assert_eq!(state.reward.rps, 10);
    update_rps(&mut state, 5, &updater, 99).unwrap();
    assert_eq!(state.reward.rps, 99);
    assert_eq!(state.reward.last_update, 5);

    assert_eq!(
        update_oracle(&mut state, &stranger, 123),
        Err(ContractError::Unauthorized {})
    );
    assert_eq!(
        update_oracle(&mut state, &updater, 123),
        Err(ContractError::Unauthorized {})
    );
    assert_eq!(state.oracle, 7);
    update_oracle(&mut state, &admin, 123).unwrap();
    assert_eq!(state.oracle, 123);
}

#[test]
fn force_settle_materializes_record() {
    let mut state = fresh_pool(10, 0, 0);
    let account = "dora".to_string();
    update_user_reward(&mut state, 30, &account).unwrap();
    assert_eq!(state.users.len(), 1);
    assert_eq!(state.users[0].0, "dora");
    assert_eq!(state.users[0].1.balance, 0);
    assert_eq!(state.users[0].1.reward, 0);
    assert_eq!(state.reward.last_update, 30);
}

#[test]
fn apr_projection() {
    let mut state = fresh_pool(2323, 2920000, 0);

    // an empty pool has no defined APR
    assert_eq!(view_apr(&state), Err(ContractError::Undefined {}));

    let sender = "alice".to_string();
    stake(&mut state, 0, &sender, &coins(20, "orai")).unwrap();
    // 2323 * 31536000 * 100 / (20 * 2920000), floor
    assert_eq!(view_apr(&state).unwrap().apr, 125442);

    // a zero oracle price has no defined APR either
    let admin = "the_admin".to_string();
    update_oracle(&mut state, &admin, 0).unwrap();
    assert_eq!(view_apr(&state), Err(ContractError::Undefined {}));
}

#[test]
fn error_messages() {
    assert_eq!(ContractError::Unauthorized {}.message(), "Unauthorized");
    assert_eq!(
        ContractError::WrongNativeToken {}.message(),
        "Only ORAI is acceptable"
    );
    assert_eq!(
        ContractError::WrongStakeAmount {}.message(),
        "Staked amount must be positive"
    );
    assert_eq!(ContractError::NotEnoughBalance {}.message(), "Not enough balance");
    assert_eq!(ContractError::Undefined {}.message(), "APR is not defined");
}

#[test]
fn overflow_guards_decide() {
    let t0: u64 = 0;
    let mut state = fresh_pool(u128::MAX, u128::MAX, t0);
    let sender = "alice".to_string();
    let no_funds: Vec<Coin> = vec![];

    // benign operations are accepted
    assert!(can_execute(&state, t0, &sender, &coins(10, "orai"), &ExecuteMsg::Stake {}));
    assert!(can_query(&state, t0, &QueryMsg::ViewAPR {}));

    stake(&mut state, t0, &sender, &coins(10, "orai")).unwrap();

    // with the maximal emission rate, settling two elapsed seconds would
    // overflow `rps * elapsed`, and the guard says so before anything panics
    assert!(!can_execute(
        &state,
        t0 + 2,
        &sender,
        &no_funds,
        &ExecuteMsg::UpdateCurSumIndex {}
    ));
    // the APR numerator overflows as well
    assert!(!can_query(&state, t0 + 2, &QueryMsg::ViewAPR {}));

    // execute agrees with the guard on a benign routed operation
    let answer = execute(
        &mut state,
        t0,
        &"the_updater".to_string(),
        &no_funds,
        ExecuteMsg::UpdateRewardPerSecond { new_rps: 5 },
    );
    assert_eq!(answer, Ok(None));
    assert_eq!(state.reward.rps, 5);
}
