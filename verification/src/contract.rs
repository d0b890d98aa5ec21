//! The pool operations: every state change settles the ledger first, then the
//! touched account, then applies its balance delta; queries are pure
//! projections of the same formulas.

use vstd::prelude::*;

use crate::error::ContractError;
use crate::msg::Coin;
use crate::msg::ExecuteMsg;
use crate::msg::InstantiateMsg;
use crate::msg::QueryAnswer;
use crate::msg::QueryMsg;
use crate::msg::TransferMsg;
use crate::msg::ViewAPRResponse;
use crate::msg::ViewRewardResponse;
use crate::msg::ViewStakeAmount;
use crate::state::Config;
use crate::state::PRECISION;
use crate::state::SECONDS_PER_YEAR;
use crate::state::lemma_sum_at_least_entry;
use crate::state::lemma_users_domain;
use crate::state::lemma_users_index;
use crate::state::lemma_users_push;
use crate::state::lemma_users_update;
use crate::state::find_user;
use crate::state::settle_fits;
use crate::state::settle_user;
use crate::state::settled_user;
use crate::state::spec_settle;
use crate::state::update_cur_sum_index;
use crate::state::user_fits;
use crate::state::ContractState;
use crate::state::RewardInfo;
use crate::state::StakeInfo;

verus! {

/// Every deposited coin is of the pool's one staking denomination.
pub open spec fn all_staking_denom(funds: Seq<Coin>) -> bool {
    forall|i: int| 0 <= i < funds.len() ==> (#[trigger] funds[i]).denom@ == "orai"@
}

/// Exact sum of the deposited amounts.
pub open spec fn funds_total(funds: Seq<Coin>) -> int
    decreases funds.len(),
{
    if funds.len() == 0 {
        0
    } else {
        funds_total(funds.drop_last()) + funds.last().amount
    }
}

/// A sum of deposit amounts is never negative.
pub proof fn lemma_funds_nonneg(funds: Seq<Coin>)
    ensures
        funds_total(funds) >= 0,
    decreases funds.len(),
{
    if funds.len() > 0 {
        lemma_funds_nonneg(funds.drop_last());
    }
}

proof fn lemma_funds_take_step(funds: Seq<Coin>, i: int)
    requires
        0 <= i < funds.len(),
    ensures
        funds_total(funds.take(i + 1)) == funds_total(funds.take(i)) + funds[i].amount,
{
    assert(funds.take(i + 1).drop_last() =~= funds.take(i));
    assert(funds.take(i + 1).last() == funds[i]);
}

proof fn lemma_funds_prefix(funds: Seq<Coin>, i: int)
    requires
        0 <= i <= funds.len(),
    ensures
        funds_total(funds.take(i)) <= funds_total(funds),
    decreases funds.len() - i,
{
    if i == funds.len() {
        assert(funds.take(i) =~= funds);
    } else {
        lemma_funds_take_step(funds, i);
        lemma_funds_prefix(funds, i + 1);
    }
}

/// A record materialized for an account first touched at index `ci`: it owes
/// nothing for prior time.
pub open spec fn fresh_user(ci: u128) -> StakeInfo {
    StakeInfo { balance: 0, reward: 0, index: ci }
}

/// The account's record right after the two-phase settlement at `now`
/// (ledger already at index `ci`), before any balance delta is applied.
pub open spec fn position_before(s: ContractState, k: Seq<char>, ci: u128) -> StakeInfo {
    if s.users_view().contains_key(k) {
        settled_user(s.users_view()[k], ci)
    } else {
        fresh_user(ci)
    }
}

/// The deposits on which `stake` is rejected: no funds, a foreign
/// denomination, or a zero total.
pub open spec fn stake_rejects(funds: Seq<Coin>) -> bool {
    funds.len() == 0 || !all_staking_denom(funds) || funds_total(funds) == 0
}

/// Machine-limit bounds under which `stake` stays within `u128`.
pub open spec fn stake_fits(s: ContractState, now: u64, sender: Seq<char>, funds: Seq<Coin>) -> bool {
    funds.len() > 0 && all_staking_denom(funds) ==> {
        &&& funds_total(funds) <= u128::MAX as int
        &&& (funds_total(funds) > 0 ==> {
            let ci = spec_settle(s.reward, now).cur_sum_index;
            &&& settle_fits(s.reward, now)
            &&& (s.users_view().contains_key(sender) ==> user_fits(s.users_view()[sender], ci))
            &&& position_before(s, sender, ci).balance + funds_total(funds) <= u128::MAX as int
            &&& s.reward.total_stake + funds_total(funds) <= u128::MAX as int
        })
    }
}

/// Everything `stake` promises: exactly when each error comes, and on
/// success the settled ledger with the deposit added to the total, and the
/// settled sender record with the deposit added to its balance.
pub open spec fn stake_post(
    pre: ContractState,
    post: ContractState,
    now: u64,
    sender: Seq<char>,
    funds: Seq<Coin>,
    r: Result<(), ContractError>,
) -> bool {
    let ci = spec_settle(pre.reward, now).cur_sum_index;
    let amt = funds_total(funds);
    let p = position_before(pre, sender, ci);
    &&& (r is Err <==> stake_rejects(funds))
    &&& (r is Err ==> post == pre)
    &&& (funds.len() == 0 ==> r == Err::<(), ContractError>((ContractError::WrongStakeAmount {})))
    &&& (funds.len() > 0 && !all_staking_denom(funds) ==> r == Err::<(), ContractError>(
        (ContractError::WrongNativeToken {}),
    ))
    &&& (funds.len() > 0 && all_staking_denom(funds) && amt == 0 ==> r == Err::<(), ContractError>(
        (ContractError::WrongStakeAmount {}),
    ))
    &&& (!stake_rejects(funds) ==> {
        &&& r is Ok
        &&& post.config == pre.config
        &&& post.oracle == pre.oracle
        &&& post.reward == (RewardInfo {
            last_update: now,
            cur_sum_index: ci,
            rps: pre.reward.rps,
            total_stake: (pre.reward.total_stake + amt) as u128,
        })
        &&& post.users_view() == pre.users_view().insert(
            sender,
            (StakeInfo { balance: (p.balance + amt) as u128, reward: p.reward, index: ci }),
        )
    })
}

/// Deposit `funds` for `sender` at time `now`: settle the ledger, settle (or
/// materialize) the sender's record, then add the deposit to its balance and
/// to the pool total.
#[verifier::loop_isolation(false)]
pub fn stake(
    state: &mut ContractState,
    now: u64,
    sender: &String,
    funds: &Vec<Coin>,
) -> (r: Result<(), ContractError>)
    requires
        old(state).wf(),
        stake_fits(*old(state), now, sender@, funds@),
    ensures
        final(state).wf(),
        stake_post(*old(state), *final(state), now, sender@, funds@, r),
{
    let ghost pre = *state;
    if funds.len() == 0 {
        return Err(ContractError::WrongStakeAmount {});
    }
    let denom: String = "orai".to_owned();
    let mut i: usize = 0;
    while i < funds.len()
        invariant
            i <= funds@.len(),
            denom@ == "orai"@,
            forall|j: int| 0 <= j < i ==> (#[trigger] funds@[j]).denom@ == "orai"@,
        decreases funds@.len() - i,
    {
        if !(funds[i].denom == denom) {
            proof {
                assert(!all_staking_denom(funds@));
            }
            return Err(ContractError::WrongNativeToken {});
        }
        i = i + 1;
    }
    assert(all_staking_denom(funds@));

    let mut user_stake: u128 = 0;
    let mut k: usize = 0;
    while k < funds.len()
        invariant
            k <= funds@.len(),
            user_stake as int == funds_total(funds@.take(k as int)),
        decreases funds@.len() - k,
    {
        proof {
            lemma_funds_take_step(funds@, k as int);
            lemma_funds_prefix(funds@, k as int + 1);
        }
        user_stake = user_stake + funds[k].amount;
        k = k + 1;
    }
    proof {
        assert(funds@.take(funds@.len() as int) =~= funds@);
    }
    if user_stake == 0 {
        return Err(ContractError::WrongStakeAmount {});
    }

    update_cur_sum_index(&mut state.reward, now);

    match find_user(&state.users, sender) {
        Some(idx) => {
            proof {
                lemma_users_index(pre.users@, idx as int);
            }
            let mut info = state.users[idx].1;
            settle_user(&mut info, state.reward.cur_sum_index);
            info.balance = info.balance + user_stake;
            state.users[idx].1 = info;
            proof {
                lemma_users_update(pre.users@, idx as int, (pre.users@[idx as int].0, info));
            }
        },
        None => {
            proof {
                lemma_users_domain(pre.users@, sender@);
            }
            let info = StakeInfo {
                balance: user_stake,
                reward: 0,
                index: state.reward.cur_sum_index,
            };
            state.users.push((sender.clone(), info));
            proof {
                lemma_users_push(pre.users@, (state.users@.last().0, info));
                assert(state.users@ == pre.users@.push((state.users@.last().0, info)));
            }
        },
    }
    state.reward.total_stake = state.reward.total_stake + user_stake;
    proof {
        assert forall|j: int| 0 <= j < state.users@.len() implies (#[trigger] state.users@[j]).1.index
            <= state.reward.cur_sum_index by {
            if 0 <= j < pre.users@.len() && state.users@[j] == pre.users@[j] {
                assert(pre.users@[j].1.index <= pre.reward.cur_sum_index);
            }
        }
    }
    Ok(())
}

/// Machine-limit bounds under which `unstake` stays within `u128`.
pub open spec fn unstake_fits(s: ContractState, now: u64, sender: Seq<char>, amount: u128) -> bool {
    s.users_view().contains_key(sender) && amount <= s.users_view()[sender].balance ==> {
        &&& settle_fits(s.reward, now)
        &&& user_fits(s.users_view()[sender], spec_settle(s.reward, now).cur_sum_index)
    }
}

/// Everything `unstake` promises: it succeeds exactly when the sender has a
/// record covering the amount; on success the settled record and the pool
/// total both shrink by the amount, the accrued reward stays claimable, and
/// the amount is returned to the sender.
pub open spec fn unstake_post(
    pre: ContractState,
    post: ContractState,
    now: u64,
    sender: Seq<char>,
    amount: u128,
    sender_val: String,
    r: Result<TransferMsg, ContractError>,
) -> bool {
    let ci = spec_settle(pre.reward, now).cur_sum_index;
    &&& (r is Ok <==> pre.users_view().contains_key(sender) && amount
        <= pre.users_view()[sender].balance)
    &&& (r is Err ==> r == Err::<TransferMsg, ContractError>((ContractError::NotEnoughBalance {}))
        && post == pre)
    &&& (r is Ok ==> {
        let u = settled_user(pre.users_view()[sender], ci);
        &&& r == Ok::<TransferMsg, ContractError>(
            (TransferMsg::Native { to_address: sender_val, amount }),
        )
        &&& post.config == pre.config
        &&& post.oracle == pre.oracle
        &&& post.reward == (RewardInfo {
            last_update: now,
            cur_sum_index: ci,
            rps: pre.reward.rps,
            total_stake: (pre.reward.total_stake - amount) as u128,
        })
        &&& post.users_view() == pre.users_view().insert(
            sender,
            (StakeInfo { balance: (u.balance - amount) as u128, reward: u.reward, index: ci }),
        )
    })
}

/// Withdraw `amount` for `sender` at time `now`: settle ledger and record,
/// subtract the amount from both, and instruct the transfer sink to return
/// it.  The accrued reward is not auto-claimed.
pub fn unstake(
    state: &mut ContractState,
    now: u64,
    sender: &String,
    amount: u128,
) -> (r: Result<TransferMsg, ContractError>)
    requires
        old(state).wf(),
        unstake_fits(*old(state), now, sender@, amount),
    ensures
        final(state).wf(),
        unstake_post(*old(state), *final(state), now, sender@, amount, *sender, r),
{
    let ghost pre = *state;
    proof {
        lemma_users_domain(pre.users@, sender@);
    }
    let idx = match find_user(&state.users, sender) {
        Some(i) => i,
        None => {
            return Err(ContractError::NotEnoughBalance {});
        },
    };
    proof {
        lemma_users_index(pre.users@, idx as int);
    }
    if state.users[idx].1.balance < amount {
        return Err(ContractError::NotEnoughBalance {});
    }
    update_cur_sum_index(&mut state.reward, now);
    let mut info = state.users[idx].1;
    settle_user(&mut info, state.reward.cur_sum_index);
    info.balance = info.balance - amount;
    state.users[idx].1 = info;
    proof {
        lemma_users_update(pre.users@, idx as int, (pre.users@[idx as int].0, info));
        lemma_sum_at_least_entry(pre.users@, idx as int);
    }
    state.reward.total_stake = state.reward.total_stake - amount;
    proof {
        assert forall|j: int| 0 <= j < state.users@.len() implies (#[trigger] state.users@[j]).1.index
            <= state.reward.cur_sum_index by {
            if state.users@[j] == pre.users@[j] {
                assert(pre.users@[j].1.index <= pre.reward.cur_sum_index);
            }
        }
    }
    Ok(TransferMsg::Native { to_address: sender.clone(), amount })
}

/// Machine-limit bounds under which the two-phase settlement of one account
/// stays within `u128`.
pub open spec fn touch_fits(s: ContractState, now: u64, k: Seq<char>) -> bool {
    &&& settle_fits(s.reward, now)
    &&& (s.users_view().contains_key(k) ==> user_fits(
        s.users_view()[k],
        spec_settle(s.reward, now).cur_sum_index,
    ))
}

/// Everything `claim_reward` promises: it always succeeds; the transferred
/// amount is exactly the sender's settled pre-claim accrual, which is then
/// reset to zero while the balance and checkpoint stay settled.
pub open spec fn claim_post(
    pre: ContractState,
    post: ContractState,
    now: u64,
    sender: Seq<char>,
    sender_val: String,
    r: Result<TransferMsg, ContractError>,
) -> bool {
    let ci = spec_settle(pre.reward, now).cur_sum_index;
    let p = position_before(pre, sender, ci);
    &&& r == Ok::<TransferMsg, ContractError>(
        (TransferMsg::Reward { recipient: sender_val, amount: p.reward }),
    )
    &&& post.config == pre.config
    &&& post.oracle == pre.oracle
    &&& post.reward == spec_settle(pre.reward, now)
    &&& post.users_view() == pre.users_view().insert(
        sender,
        (StakeInfo { balance: p.balance, reward: 0, index: ci }),
    )
}

/// Pay out everything `sender` has accrued at time `now`: settle ledger and
/// record, capture the accrued reward, reset it to zero, and instruct the
/// transfer sink to send the captured amount.  Claiming with nothing accrued
/// (even with no record at all) is not an error; it transfers zero.
pub fn claim_reward(
    state: &mut ContractState,
    now: u64,
    sender: &String,
) -> (r: Result<TransferMsg, ContractError>)
    requires
        old(state).wf(),
        touch_fits(*old(state), now, sender@),
    ensures
        final(state).wf(),
        claim_post(*old(state), *final(state), now, sender@, *sender, r),
{
    let ghost pre = *state;
    update_cur_sum_index(&mut state.reward, now);
    let claimable: u128;
    match find_user(&state.users, sender) {
        Some(idx) => {
            proof {
                lemma_users_index(pre.users@, idx as int);
            }
            let mut info = state.users[idx].1;
            settle_user(&mut info, state.reward.cur_sum_index);
            claimable = info.reward;
            info.reward = 0;
            state.users[idx].1 = info;
            proof {
                lemma_users_update(pre.users@, idx as int, (pre.users@[idx as int].0, info));
            }
        },
        None => {
            proof {
                lemma_users_domain(pre.users@, sender@);
            }
            claimable = 0;
            let info = StakeInfo { balance: 0, reward: 0, index: state.reward.cur_sum_index };
            state.users.push((sender.clone(), info));
            proof {
                lemma_users_push(pre.users@, (state.users@.last().0, info));
                assert(state.users@ == pre.users@.push((state.users@.last().0, info)));
            }
        },
    }
    proof {
        assert forall|j: int| 0 <= j < state.users@.len() implies (#[trigger] state.users@[j]).1.index
            <= state.reward.cur_sum_index by {
            if 0 <= j < pre.users@.len() && state.users@[j] == pre.users@[j] {
                assert(pre.users@[j].1.index <= pre.reward.cur_sum_index);
            }
        }
    }
    Ok(TransferMsg::Reward { recipient: sender.clone(), amount: claimable })
}

/// Everything `update_user_reward` promises: it always succeeds and leaves
/// the named account's record settled (or freshly materialized) at `now`,
/// touching nothing else.
pub open spec fn force_settle_post(
    pre: ContractState,
    post: ContractState,
    now: u64,
    account: Seq<char>,
    r: Result<(), ContractError>,
) -> bool {
    let ci = spec_settle(pre.reward, now).cur_sum_index;
    &&& r is Ok
    &&& post.config == pre.config
    &&& post.oracle == pre.oracle
    &&& post.reward == spec_settle(pre.reward, now)
    &&& post.users_view() == pre.users_view().insert(account, position_before(pre, account, ci))
}

/// Settle the ledger and the named account's record at `now`, materializing
/// the record if the account has none.  Deliberately callable by anyone:
/// settlement can only credit what is owed, never take anything away.
pub fn update_user_reward(
    state: &mut ContractState,
    now: u64,
    account: &String,
) -> (r: Result<(), ContractError>)
    requires
        old(state).wf(),
        touch_fits(*old(state), now, account@),
    ensures
        final(state).wf(),
        force_settle_post(*old(state), *final(state), now, account@, r),
{
    let ghost pre = *state;
    update_cur_sum_index(&mut state.reward, now);
    match find_user(&state.users, account) {
        Some(idx) => {
            proof {
                lemma_users_index(pre.users@, idx as int);
            }
            let mut info = state.users[idx].1;
            settle_user(&mut info, state.reward.cur_sum_index);
            state.users[idx].1 = info;
            proof {
                lemma_users_update(pre.users@, idx as int, (pre.users@[idx as int].0, info));
            }
        },
        None => {
            proof {
                lemma_users_domain(pre.users@, account@);
            }
            let info = StakeInfo { balance: 0, reward: 0, index: state.reward.cur_sum_index };
            state.users.push((account.clone(), info));
            proof {
                lemma_users_push(pre.users@, (state.users@.last().0, info));
                assert(state.users@ == pre.users@.push((state.users@.last().0, info)));
            }
        },
    }
    proof {
        assert forall|j: int| 0 <= j < state.users@.len() implies (#[trigger] state.users@[j]).1.index
            <= state.reward.cur_sum_index by {
            if 0 <= j < pre.users@.len() && state.users@[j] == pre.users@[j] {
                assert(pre.users@[j].1.index <= pre.reward.cur_sum_index);
            }
        }
    }
    Ok(())
}

/// Machine-limit bounds under which `update_rps` stays within `u128`.
pub open spec fn update_rps_fits(s: ContractState, now: u64, sender: Seq<char>) -> bool {
    sender == s.config.updater@ ==> settle_fits(s.reward, now)
}

/// Everything `update_rps` promises: only the updater may change the rate,
/// and the ledger is settled under the old rate first, so the change never
/// reaches already-elapsed time.
pub open spec fn update_rps_post(
    pre: ContractState,
    post: ContractState,
    now: u64,
    sender: Seq<char>,
    new_rps: u128,
    r: Result<(), ContractError>,
) -> bool {
    &&& (r is Ok <==> sender == pre.config.updater@)
    &&& (r is Err ==> r == Err::<(), ContractError>((ContractError::Unauthorized {})) && post
        == pre)
    &&& (r is Ok ==> {
        &&& post.config == pre.config
        &&& post.oracle == pre.oracle
        &&& post.users == pre.users
        &&& post.reward == (RewardInfo {
            last_update: now,
            cur_sum_index: spec_settle(pre.reward, now).cur_sum_index,
            rps: new_rps,
            total_stake: pre.reward.total_stake,
        })
    })
}

/// Change the emission rate to `new_rps` at time `now`; `sender` must be the
/// configured updater.  The ledger is settled with the old rate first.
pub fn update_rps(
    state: &mut ContractState,
    now: u64,
    sender: &String,
    new_rps: u128,
) -> (r: Result<(), ContractError>)
    requires
        old(state).wf(),
        update_rps_fits(*old(state), now, sender@),
    ensures
        final(state).wf(),
        update_rps_post(*old(state), *final(state), now, sender@, new_rps, r),
{
    if !(*sender == state.config.updater) {
        return Err(ContractError::Unauthorized {});
    }
    update_cur_sum_index(&mut state.reward, now);
    state.reward.rps = new_rps;
    Ok(())
}

/// Everything `update_oracle` promises: only the admin may set the price,
/// and nothing else changes; no settlement is involved since the price only
/// feeds the APR projection.
pub open spec fn update_oracle_post(
    pre: ContractState,
    post: ContractState,
    sender: Seq<char>,
    price: u128,
    r: Result<(), ContractError>,
) -> bool {
    &&& (r is Ok <==> sender == pre.config.admin@)
    &&& (r is Err ==> r == Err::<(), ContractError>((ContractError::Unauthorized {})) && post
        == pre)
    &&& (r is Ok ==> {
        &&& post.config == pre.config
        &&& post.reward == pre.reward
        &&& post.users == pre.users
        &&& post.oracle == price
    })
}

/// Replace the stored oracle price; `sender` must be the configured admin.
pub fn update_oracle(
    state: &mut ContractState,
    sender: &String,
    price: u128,
) -> (r: Result<(), ContractError>)
    requires
        old(state).wf(),
    ensures
        final(state).wf(),
        update_oracle_post(*old(state), *final(state), sender@, price, r),
{
    if !(*sender == state.config.admin) {
        return Err(ContractError::Unauthorized {});
    }
    state.oracle = price;
    Ok(())
}

/// Balance currently staked by `address`, zero if it has no record.
pub fn check_stake_amount(state: &ContractState, address: &String) -> (r: ViewStakeAmount)
    requires
        state.wf(),
    ensures
        r.balance == (if state.users_view().contains_key(address@) {
            state.users_view()[address@].balance
        } else {
            0u128
        }),
{
    match find_user(&state.users, address) {
        Some(idx) => {
            proof {
                lemma_users_index(state.users@, idx as int);
            }
            ViewStakeAmount { balance: state.users[idx].1.balance }
        },
        None => {
            proof {
                lemma_users_domain(state.users@, address@);
            }
            ViewStakeAmount { balance: 0 }
        },
    }
}

/// What `update_user_reward` would credit `account` at `now`, computed on
/// local copies and persisting nothing.
pub fn view_reward(state: &ContractState, now: u64, account: &String) -> (r: ViewRewardResponse)
    requires
        state.wf(),
        touch_fits(*state, now, account@),
    ensures
        r.reward == position_before(
            *state,
            account@,
            spec_settle(state.reward, now).cur_sum_index,
        ).reward,
{
    let mut reward_copy = state.reward;
    update_cur_sum_index(&mut reward_copy, now);
    match find_user(&state.users, account) {
        Some(idx) => {
            proof {
                lemma_users_index(state.users@, idx as int);
            }
            let mut info = state.users[idx].1;
            settle_user(&mut info, reward_copy.cur_sum_index);
            ViewRewardResponse { reward: info.reward }
        },
        None => {
            proof {
                lemma_users_domain(state.users@, account@);
            }
            ViewRewardResponse { reward: 0 }
        },
    }
}

/// Machine-limit bounds under which the APR projection stays within `u128`.
pub open spec fn apr_fits(s: ContractState) -> bool {
    s.reward.total_stake > 0 && s.oracle > 0 ==> {
        &&& (s.reward.rps as int) * (SECONDS_PER_YEAR as int) * 100 <= u128::MAX as int
        &&& (s.reward.total_stake as int) * (s.oracle as int) <= u128::MAX as int
    }
}

/// The yearly emission as a percentage of the pool's oracle-priced value,
/// floor-divided; undefined while nothing is staked or the price is zero.
pub open spec fn spec_apr(s: ContractState) -> int {
    (s.reward.rps as int) * (SECONDS_PER_YEAR as int) * 100 / (
    (s.reward.total_stake as int) * (s.oracle as int))
}

/// Annualized reward rate projection.  With an empty pool or a zero oracle
/// price the ratio is undefined and reported as an explicit error.
pub fn view_apr(state: &ContractState) -> (r: Result<ViewAPRResponse, ContractError>)
    requires
        apr_fits(*state),
    ensures
        r is Ok <==> state.reward.total_stake > 0 && state.oracle > 0,
        r is Err ==> r == Err::<ViewAPRResponse, ContractError>((ContractError::Undefined {})),
        r is Ok ==> r == Ok::<ViewAPRResponse, ContractError>(
            (ViewAPRResponse { apr: spec_apr(*state) as u128 }),
        ),
{
    if state.reward.total_stake == 0 || state.oracle == 0 {
        return Err(ContractError::Undefined {});
    }
    proof {
        let a = state.reward.rps as int;
        let y = SECONDS_PER_YEAR as int;
        assert(0 <= a * y && a * y <= a * y * 100) by (nonlinear_arith)
            requires
                a >= 0,
                y >= 0,
        ;
        let t = state.reward.total_stake as int;
        let o = state.oracle as int;
        assert(t * o > 0) by (nonlinear_arith)
            requires
                t > 0,
                o > 0,
        ;
    }
    let ts: u128 = state.reward.rps * SECONDS_PER_YEAR;
    let ms: u128 = state.reward.total_stake * state.oracle;
    let apr: u128 = ts * 100 / ms;
    Ok(ViewAPRResponse { apr })
}

/// Build the initial pool state: admin defaults to the initializing caller,
/// updater to the admin, rate and price to zero; the ledger starts settled
/// at `now` with index zero and nothing staked.
pub fn instantiate(msg: InstantiateMsg, sender: String, now: u64) -> (s: ContractState)
    ensures
        s.wf(),
        s.config.admin@ == (if msg.admin is Some {
            msg.admin->0@
        } else {
            sender@
        }),
        s.config.updater@ == (if msg.updater is Some {
            msg.updater->0@
        } else {
            s.config.admin@
        }),
        s.reward == (RewardInfo {
            last_update: now,
            cur_sum_index: 0,
            rps: (if msg.rps is Some {
                msg.rps->0
            } else {
                0u128
            }),
            total_stake: 0,
        }),
        s.oracle == (if msg.oracle is Some {
            msg.oracle->0
        } else {
            0u128
        }),
        s.users_view() == Map::<Seq<char>, StakeInfo>::empty(),
{
    let admin = match msg.admin {
        Some(a) => a,
        None => sender,
    };
    let updater = match msg.updater {
        Some(u) => u,
        None => admin.clone(),
    };
    let rps_init = match msg.rps {
        Some(r) => r,
        None => 0,
    };
    let oracle_init = match msg.oracle {
        Some(o) => o,
        None => 0,
    };
    let s = ContractState {
        config: Config { admin, updater },
        reward: RewardInfo { last_update: now, cur_sum_index: 0, rps: rps_init, total_stake: 0 },
        oracle: oracle_init,
        users: Vec::new(),
    };
    proof {
        assert(s.users_view() =~= Map::<Seq<char>, StakeInfo>::empty());
    }
    s
}

/// Machine-limit bounds for whichever operation `msg` names.
pub open spec fn execute_fits(
    s: ContractState,
    now: u64,
    sender: Seq<char>,
    funds: Seq<Coin>,
    msg: ExecuteMsg,
) -> bool {
    match msg {
        ExecuteMsg::Stake {} => stake_fits(s, now, sender, funds),
        ExecuteMsg::Unstake { amount } => unstake_fits(s, now, sender, amount),
        ExecuteMsg::ClaimReward {} => touch_fits(s, now, sender),
        ExecuteMsg::UpdateOracle { price: _ } => true,
        ExecuteMsg::UpdateCurSumIndex {} => settle_fits(s.reward, now),
        ExecuteMsg::UpdateUserReward { account } => touch_fits(s, now, account@),
        ExecuteMsg::UpdateRewardPerSecond { new_rps: _ } => update_rps_fits(s, now, sender),
    }
}

/// Route one state-changing operation; `sender` and `funds` come from the
/// host's message info, `now` from its clock.  Each arm promises exactly what
/// the routed operation promises; a transfer instruction, where one arises,
/// is handed back for the host's transfer sink.
pub fn execute(
    state: &mut ContractState,
    now: u64,
    sender: &String,
    funds: &Vec<Coin>,
    msg: ExecuteMsg,
) -> (r: Result<Option<TransferMsg>, ContractError>)
    requires
        old(state).wf(),
        execute_fits(*old(state), now, sender@, funds@, msg),
    ensures
        final(state).wf(),
        msg matches ExecuteMsg::Stake {} ==> (match r {
            Ok(t) => t is None && stake_post(
                *old(state),
                *final(state),
                now,
                sender@,
                funds@,
                Ok(()),
            ),
            Err(e) => stake_post(*old(state), *final(state), now, sender@, funds@, Err(e)),
        }),
        (msg matches ExecuteMsg::Unstake { amount } ==> (match r {
            Ok(t) => t matches Some(tm) && unstake_post(
                *old(state),
                *final(state),
                now,
                sender@,
                amount,
                *sender,
                Ok(tm),
            ),
            Err(e) => unstake_post(
                *old(state),
                *final(state),
                now,
                sender@,
                amount,
                *sender,
                Err(e),
            ),
        })),
        msg matches ExecuteMsg::ClaimReward {} ==> (match r {
            Ok(t) => t matches Some(tm) && claim_post(
                *old(state),
                *final(state),
                now,
                sender@,
                *sender,
                Ok(tm),
            ),
            Err(_) => false,
        }),
        (msg matches ExecuteMsg::UpdateOracle { price } ==> (match r {
            Ok(t) => t is None && update_oracle_post(
                *old(state),
                *final(state),
                sender@,
                price,
                Ok(()),
            ),
            Err(e) => update_oracle_post(*old(state), *final(state), sender@, price, Err(e)),
        })),
        msg matches ExecuteMsg::UpdateCurSumIndex {} ==> {
            &&& r == Ok::<Option<TransferMsg>, ContractError>(None)
            &&& final(state).reward == spec_settle(old(state).reward, now)
            &&& final(state).config == old(state).config
            &&& final(state).oracle == old(state).oracle
            &&& final(state).users == old(state).users
        },
        (msg matches ExecuteMsg::UpdateUserReward { account } ==> (match r {
            Ok(t) => t is None && force_settle_post(
                *old(state),
                *final(state),
                now,
                account@,
                Ok(()),
            ),
            Err(_) => false,
        })),
        (msg matches ExecuteMsg::UpdateRewardPerSecond { new_rps } ==> (match r {
            Ok(t) => t is None && update_rps_post(
                *old(state),
                *final(state),
                now,
                sender@,
                new_rps,
                Ok(()),
            ),
            Err(e) => update_rps_post(*old(state), *final(state), now, sender@, new_rps, Err(e)),
        })),
{
    match msg {
        ExecuteMsg::Stake {} => match stake(state, now, sender, funds) {
            Ok(()) => Ok(None),
            Err(e) => Err(e),
        },
        ExecuteMsg::Unstake { amount } => match unstake(state, now, sender, amount) {
            Ok(t) => Ok(Some(t)),
            Err(e) => Err(e),
        },
        ExecuteMsg::ClaimReward {} => match claim_reward(state, now, sender) {
            Ok(t) => Ok(Some(t)),
            Err(e) => Err(e),
        },
        ExecuteMsg::UpdateOracle { price } => match update_oracle(state, sender, price) {
            Ok(()) => Ok(None),
            Err(e) => Err(e),
        },
        ExecuteMsg::UpdateCurSumIndex {} => {
            let ghost pre = *state;
            update_cur_sum_index(&mut state.reward, now);
            proof {
                assert forall|j: int|
                    0 <= j < state.users@.len() implies (#[trigger] state.users@[j]).1.index
                    <= state.reward.cur_sum_index by {
                    assert(pre.users@[j].1.index <= pre.reward.cur_sum_index);
                }
            }
            Ok(None)
        },
        ExecuteMsg::UpdateUserReward { account } => match update_user_reward(
            state,
            now,
            &account,
        ) {
            Ok(()) => Ok(None),
            Err(e) => Err(e),
        },
        ExecuteMsg::UpdateRewardPerSecond { new_rps } => match update_rps(
            state,
            now,
            sender,
            new_rps,
        ) {
            Ok(()) => Ok(None),
            Err(e) => Err(e),
        },
    }
}

/// Machine-limit bounds for whichever projection `msg` names.
pub open spec fn query_fits(s: ContractState, now: u64, msg: QueryMsg) -> bool {
    match msg {
        QueryMsg::ViewReward { account } => touch_fits(s, now, account@),
        QueryMsg::ViewAPR {} => apr_fits(s),
        QueryMsg::CheckStakeAmount { address: _ } => true,
    }
}

/// Route one read-only query; the state is never changed.
pub fn query(state: &ContractState, now: u64, msg: QueryMsg) -> (r: Result<
    QueryAnswer,
    ContractError,
>)
    requires
        state.wf(),
        query_fits(*state, now, msg),
    ensures
        (msg matches QueryMsg::ViewReward { account } ==> (match r {
            Ok(a) => a matches QueryAnswer::Reward(v) && v.reward == position_before(
                *state,
                account@,
                spec_settle(state.reward, now).cur_sum_index,
            ).reward,
            Err(_) => false,
        })),
        msg matches QueryMsg::ViewAPR {} ==> (match r {
            Ok(a) => a matches QueryAnswer::Apr(v) && state.reward.total_stake > 0 && state.oracle
                > 0 && v.apr == spec_apr(*state) as u128,
            Err(e) => e == (ContractError::Undefined {}) && !(state.reward.total_stake > 0
                && state.oracle > 0),
        }),
        (msg matches QueryMsg::CheckStakeAmount { address } ==> (match r {
            Ok(a) => a matches QueryAnswer::StakeAmount(v) && v.balance == (
            if state.users_view().contains_key(address@) {
                state.users_view()[address@].balance
            } else {
                0u128
            }),
            Err(_) => false,
        })),
{
    match msg {
        QueryMsg::ViewReward { account } => Ok(
            QueryAnswer::Reward(view_reward(state, now, &account)),
        ),
        QueryMsg::ViewAPR {} => match view_apr(state) {
            Ok(v) => Ok(QueryAnswer::Apr(v)),
            Err(e) => Err(e),
        },
        QueryMsg::CheckStakeAmount { address } => Ok(
            QueryAnswer::StakeAmount(check_stake_amount(state, &address)),
        ),
    }
}

/// Decide `settle_fits` with checked arithmetic.
fn check_settle_fits(r: &RewardInfo, now: u64) -> (b: bool)
    ensures
        b == settle_fits(*r, now),
{
    if now < r.last_update {
        return false;
    }
    if r.total_stake > 0 && now > r.last_update {
        let elapsed: u128 = (now - r.last_update) as u128;
        match r.rps.checked_mul(elapsed) {
            None => false,
            Some(e) => match e.checked_mul(PRECISION) {
                None => false,
                Some(ep) => r.cur_sum_index.checked_add(ep / r.total_stake).is_some(),
            },
        }
    } else {
        true
    }
}

/// Decide `user_fits` with checked arithmetic.
fn check_user_fits(u: &StakeInfo, ci: u128) -> (b: bool)
    ensures
        b == user_fits(*u, ci),
{
    if u.index > ci {
        return false;
    }
    let d: u128 = ci - u.index;
    match d.checked_mul(u.balance) {
        None => false,
        Some(prod) => u.reward.checked_add(prod / PRECISION).is_some(),
    }
}

/// Decide `touch_fits` with checked arithmetic.
fn check_touch_fits(s: &ContractState, now: u64, k: &String) -> (b: bool)
    requires
        s.wf(),
    ensures
        b == touch_fits(*s, now, k@),
{
    if !check_settle_fits(&s.reward, now) {
        return false;
    }
    let mut reward_copy = s.reward;
    update_cur_sum_index(&mut reward_copy, now);
    match find_user(&s.users, k) {
        Some(idx) => {
            proof {
                lemma_users_index(s.users@, idx as int);
            }
            check_user_fits(&s.users[idx].1, reward_copy.cur_sum_index)
        },
        None => {
            proof {
                lemma_users_domain(s.users@, k@);
            }
            true
        },
    }
}

/// Decide `execute_fits` — whether routing `msg` is certain to stay within
/// `u128` — with checked arithmetic, so a caller can refuse an operation the
/// machine could not carry out rather than abort.
#[verifier::loop_isolation(false)]
pub fn can_execute(
    state: &ContractState,
    now: u64,
    sender: &String,
    funds: &Vec<Coin>,
    msg: &ExecuteMsg,
) -> (b: bool)
    requires
        state.wf(),
    ensures
        b == execute_fits(*state, now, sender@, funds@, *msg),
{
    match msg {
        ExecuteMsg::Stake {} => {
            if funds.len() == 0 {
                return true;
            }
            let denom: String = "orai".to_owned();
            let mut i: usize = 0;
            while i < funds.len()
                invariant
                    i <= funds@.len(),
                    denom@ == "orai"@,
                    forall|j: int| 0 <= j < i ==> (#[trigger] funds@[j]).denom@ == "orai"@,
                decreases funds@.len() - i,
            {
                if !(funds[i].denom == denom) {
                    proof {
                        assert(!all_staking_denom(funds@));
                    }
                    return true;
                }
                i = i + 1;
            }
            assert(all_staking_denom(funds@));
            let mut user_stake: u128 = 0;
            let mut k: usize = 0;
            while k < funds.len()
                invariant
                    k <= funds@.len(),
                    user_stake as int == funds_total(funds@.take(k as int)),
                decreases funds@.len() - k,
            {
                proof {
                    lemma_funds_take_step(funds@, k as int);
                }
                match user_stake.checked_add(funds[k].amount) {
                    Some(t) => {
                        user_stake = t;
                    },
                    None => {
                        proof {
                            lemma_funds_prefix(funds@, k as int + 1);
                        }
                        return false;
                    },
                }
                k = k + 1;
            }
            proof {
                assert(funds@.take(funds@.len() as int) =~= funds@);
            }
            if user_stake == 0 {
                return true;
            }
            if !check_settle_fits(&state.reward, now) {
                return false;
            }
            let mut reward_copy = state.reward;
            update_cur_sum_index(&mut reward_copy, now);
            let ci = reward_copy.cur_sum_index;
            let balance_before: u128;
            match find_user(&state.users, sender) {
                Some(idx) => {
                    proof {
                        lemma_users_index(state.users@, idx as int);
                    }
                    if !check_user_fits(&state.users[idx].1, ci) {
                        return false;
                    }
                    balance_before = state.users[idx].1.balance;
                },
                None => {
                    proof {
                        lemma_users_domain(state.users@, sender@);
                    }
                    balance_before = 0;
                },
            }
            if balance_before.checked_add(user_stake).is_none() {
                return false;
            }
            state.reward.total_stake.checked_add(user_stake).is_some()
        },
        ExecuteMsg::Unstake { amount } => {
            match find_user(&state.users, sender) {
                Some(idx) => {
                    proof {
                        lemma_users_index(state.users@, idx as int);
                    }
                    if state.users[idx].1.balance < *amount {
                        return true;
                    }
                    if !check_settle_fits(&state.reward, now) {
                        return false;
                    }
                    let mut reward_copy = state.reward;
                    update_cur_sum_index(&mut reward_copy, now);
                    check_user_fits(&state.users[idx].1, reward_copy.cur_sum_index)
                },
                None => {
                    proof {
                        lemma_users_domain(state.users@, sender@);
                    }
                    true
                },
            }
        },
        ExecuteMsg::ClaimReward {} => check_touch_fits(state, now, sender),
        ExecuteMsg::UpdateOracle { price: _ } => true,
        ExecuteMsg::UpdateCurSumIndex {} => check_settle_fits(&state.reward, now),
        ExecuteMsg::UpdateUserReward { account } => check_touch_fits(state, now, account),
        ExecuteMsg::UpdateRewardPerSecond { new_rps: _ } => {
            if !(*sender == state.config.updater) {
                return true;
            }
            check_settle_fits(&state.reward, now)
        },
    }
}

/// Decide `query_fits` with checked arithmetic.
pub fn can_query(state: &ContractState, now: u64, msg: &QueryMsg) -> (b: bool)
    requires
        state.wf(),
    ensures
        b == query_fits(*state, now, *msg),
{
    match msg {
        QueryMsg::ViewReward { account } => check_touch_fits(state, now, account),
        QueryMsg::ViewAPR {} => {
            if state.reward.total_stake == 0 || state.oracle == 0 {
                return true;
            }
            match state.reward.rps.checked_mul(SECONDS_PER_YEAR) {
                None => false,
                Some(ty) => {
                    if ty.checked_mul(100).is_none() {
                        return false;
                    }
                    state.reward.total_stake.checked_mul(state.oracle).is_some()
                },
            }
        },
        QueryMsg::CheckStakeAmount { address: _ } => true,
    }
}

} // verus!
