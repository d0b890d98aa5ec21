use och_staking::contract::{claim_reward, execute, instantiate, stake, unstake, update_rps,
    update_user_reward, view_reward};
use och_staking::msg::{Coin, ExecuteMsg, InstantiateMsg};
use och_staking::state::ContractState;

fn coins(amount: u128, denom: &str) -> Vec<Coin> {
    vec![Coin { denom: denom.to_string(), amount }]
}

fn fresh_pool(rps: u128, t0: u64) -> ContractState {
    let msg = InstantiateMsg {
        admin: Some("the_admin".to_string()),
        updater: Some("the_updater".to_string()),
        rps: Some(rps),
        oracle: Some(1),
    };
    instantiate(msg, "the_admin".to_string(), t0)
}

fn sum_of_balances(state: &ContractState) -> u128 {
    state.users.iter().map(|entry| entry.1.balance).sum()
}

/// Conservation: the ledger total equals the exact sum of all account
/// balances after every operation of a mixed sequence.
#[test]
fn conservation_across_operations() {
    let mut state = fresh_pool(777, 0);
    let alice = "alice".to_string();
    let bob = "bob".to_string();

    stake(&mut state, 10, &alice, &coins(1000, "orai")).unwrap();
    assert_eq!(state.reward.total_stake, sum_of_balances(&state));

    stake(&mut state, 20, &bob, &coins(500, "orai")).unwrap();
    assert_eq!(state.reward.total_stake, sum_of_balances(&state));

    unstake(&mut state, 30, &alice, 999).unwrap();
    assert_eq!(state.reward.total_stake, sum_of_balances(&state));

    claim_reward(&mut state, 40, &bob).unwrap();
    assert_eq!(state.reward.total_stake, sum_of_balances(&state));

    update_user_reward(&mut state, 50, &"carol".to_string()).unwrap();
    assert_eq!(state.reward.total_stake, sum_of_balances(&state));

    unstake(&mut state, 60, &alice, 1).unwrap();
    assert_eq!(state.reward.total_stake, sum_of_balances(&state));
    assert_eq!(state.reward.total_stake, 500);
}

/// Monotonicity: across time-forward operations without a claim, the
/// cumulative index and every account's accrued reward never decrease.
#[test]
fn index_and_rewards_monotonic() {
    let mut state = fresh_pool(1234, 0);
    let alice = "alice".to_string();
    let bob = "bob".to_string();
    let updater = "the_updater".to_string();
    let no_funds: Vec<Coin> = vec![];

    stake(&mut state, 0, &alice, &coins(7, "orai")).unwrap();
    stake(&mut state, 5, &bob, &coins(13, "orai")).unwrap();

    let mut last_index = state.reward.cur_sum_index;
    let mut last_alice = 0u128;
    let mut last_bob = 0u128;

    let steps: Vec<(u64, ExecuteMsg)> = vec![
        (10, ExecuteMsg::UpdateCurSumIndex {}),
        (15, ExecuteMsg::UpdateUserReward { account: "alice".to_string() }),
        (21, ExecuteMsg::Stake {}),
        (34, ExecuteMsg::UpdateRewardPerSecond { new_rps: 55 }),
        (55, ExecuteMsg::Unstake { amount: 3 }),
        (89, ExecuteMsg::UpdateCurSumIndex {}),
    ];
    for (now, msg) in steps {
        let (sender, funds) = match &msg {
            ExecuteMsg::Stake {} => (&alice, coins(2, "orai")),
            ExecuteMsg::Unstake { .. } => (&bob, no_funds.clone()),
            ExecuteMsg::UpdateRewardPerSecond { .. } => (&updater, no_funds.clone()),
            _ => (&alice, no_funds.clone()),
        };
        execute(&mut state, now, sender, &funds, msg).unwrap();

        assert!(state.reward.cur_sum_index >= last_index);
        let alice_reward = view_reward(&state, now, &alice).reward;
        let bob_reward = view_reward(&state, now, &bob).reward;
        assert!(alice_reward >= last_alice);
        assert!(bob_reward >= last_bob);
        last_index = state.reward.cur_sum_index;
        last_alice = alice_reward;
        last_bob = bob_reward;
    }
}

/// Idempotence of settlement: repeating a settlement at the same timestamp
/// with no operation in between changes nothing the second time.
#[test]
fn settlement_idempotent_at_same_time() {
    let mut state = fresh_pool(999, 0);
    let alice = "alice".to_string();
    let no_funds: Vec<Coin> = vec![];
    stake(&mut state, 3, &alice, &coins(11, "orai")).unwrap();

    update_user_reward(&mut state, 47, &alice).unwrap();
    let after_first = state.clone();
    update_user_reward(&mut state, 47, &alice).unwrap();
    assert_eq!(state, after_first);

    execute(&mut state, 47, &alice, &no_funds, ExecuteMsg::UpdateCurSumIndex {}).unwrap();
    assert_eq!(state, after_first);
}

/// Proportional fairness: balances in ratio 1:3 over the same interval give
/// rewards in ratio 1:3, within one floor-rounding unit.
#[test]
fn proportional_rewards() {
    let mut state = fresh_pool(2323, 0);
    let alice = "alice".to_string();
    let bob = "bob".to_string();
    stake(&mut state, 0, &alice, &coins(10, "orai")).unwrap();
    stake(&mut state, 0, &bob, &coins(30, "orai")).unwrap();

    // 97 seconds of emission over a pool of 40
    let r_alice = view_reward(&state, 97, &alice).reward;
    let r_bob = view_reward(&state, 97, &bob).reward;
    // index advance: 2323 * 97 * 10^6 / 40 = 5_633_275_000
    assert_eq!(r_alice, 56332);
    assert_eq!(r_bob, 168998);
    // cross-multiplied ratio bounds with p : q = 1 : 3
    assert!(3 * r_alice < 1 * (r_bob + 1));
    assert!(1 * r_bob < 3 * (r_alice + 1));
}

/// Rate-change non-retroactivity: whatever rate the updater picks at time T,
/// nothing accrued before T changes; only accrual after T differs.
#[test]
fn rate_change_not_retroactive() {
    let mut state = fresh_pool(1000, 0);
    let alice = "alice".to_string();
    let updater = "the_updater".to_string();
    stake(&mut state, 0, &alice, &coins(10, "orai")).unwrap();

    let mut raised = state.clone();
    let mut stopped = state.clone();
    update_rps(&mut raised, 100, &updater, 5000).unwrap();
    update_rps(&mut stopped, 100, &updater, 0).unwrap();

    // the settled index at T and everything accrued for [0, T) agree
    assert_eq!(raised.reward.cur_sum_index, stopped.reward.cur_sum_index);
    assert_eq!(raised.users, stopped.users);
    assert_eq!(
        view_reward(&raised, 100, &alice).reward,
        view_reward(&stopped, 100, &alice).reward
    );
    assert_eq!(view_reward(&raised, 100, &alice).reward, 100000);

    // after T each pool follows its own new rate alone
    assert_eq!(view_reward(&raised, 200, &alice).reward, 100000 + 500000);
    assert_eq!(view_reward(&stopped, 200, &alice).reward, 100000);
}
