//! The pool's global guarantees, each stated and proved against the
//! operations' contracts.

use vstd::prelude::*;

use vstd::arithmetic::div_mod::lemma_div_of0;
use vstd::arithmetic::div_mod::lemma_fundamental_div_mod;
use vstd::arithmetic::div_mod::lemma_mod_bound;

use crate::contract::claim_post;
use crate::contract::force_settle_post;
use crate::contract::lemma_funds_nonneg;
use crate::contract::position_before;
use crate::contract::stake_fits;
use crate::contract::stake_post;
use crate::contract::stake_rejects;
use crate::contract::touch_fits;
use crate::contract::unstake_fits;
use crate::contract::unstake_post;
use crate::contract::update_rps_post;
use crate::error::ContractError;
use crate::msg::Coin;
use crate::msg::TransferMsg;
use crate::state::settle_fits;
use crate::state::settled_index;
use crate::state::settled_user;
use crate::state::spec_settle;
use crate::state::sum_stakes;
use crate::state::user_fits;
use crate::state::user_gain;
use crate::state::ContractState;
use crate::state::RewardInfo;
use crate::state::StakeInfo;
use crate::state::PRECISION;

verus! {

/// Conservation: in every well-formed pool state — and every operation both
/// requires and re-establishes well-formedness — the ledger's `total_stake`
/// equals the exact sum of all account balances.
pub proof fn lemma_conservation(s: ContractState)
    requires
        s.wf(),
    ensures
        s.reward.total_stake as int == sum_stakes(s.users@),
{
}

/// Monotonicity of the ledger: settlement never decreases the cumulative
/// index.
pub proof fn lemma_index_monotonic(r: RewardInfo, now: u64)
    requires
        settle_fits(r, now),
    ensures
        r.cur_sum_index <= spec_settle(r, now).cur_sum_index,
{
    if r.total_stake > 0 && now > r.last_update {
        let e = (r.rps as int) * ((now - r.last_update) as int) * (PRECISION as int);
        let t = r.total_stake as int;
        assert(e >= 0 && e / t >= 0) by (nonlinear_arith)
            requires
                r.rps >= 0,
                now > r.last_update,
                PRECISION > 0,
                t > 0,
                e == (r.rps as int) * ((now - r.last_update) as int) * (PRECISION as int),
        ;
    }
}

/// Monotonicity of an account: settlement never decreases its accrued
/// reward.
pub proof fn lemma_reward_monotonic(u: StakeInfo, ci: u128)
    requires
        user_fits(u, ci),
    ensures
        u.reward <= settled_user(u, ci).reward,
{
    let d = ci as int - u.index as int;
    let b = u.balance as int;
    let p = PRECISION as int;
    assert(d * b / p >= 0) by (nonlinear_arith)
        requires
            d >= 0,
            b >= 0,
            p > 0,
    ;
}

/// Monotonicity across a deposit: no account's accrued reward decreases, and
/// no account record disappears.
pub proof fn lemma_stake_monotonic(
    pre: ContractState,
    post: ContractState,
    now: u64,
    sender: Seq<char>,
    funds: Seq<Coin>,
    r: Result<(), ContractError>,
)
    requires
        pre.wf(),
        stake_fits(pre, now, sender, funds),
        stake_post(pre, post, now, sender, funds, r),
    ensures
        forall|k: Seq<char>| #[trigger]
            pre.users_view().contains_key(k) ==> post.users_view().contains_key(k)
                && pre.users_view()[k].reward <= post.users_view()[k].reward,
{
    if !stake_rejects(funds) {
        let ci = spec_settle(pre.reward, now).cur_sum_index;
        lemma_funds_nonneg(funds);
        assert forall|k: Seq<char>| #[trigger] pre.users_view().contains_key(k) implies post.users_view().contains_key(
            k,
        ) && pre.users_view()[k].reward <= post.users_view()[k].reward by {
            if k == sender {
                assert(pre.users_view().contains_key(sender));
                assert(user_fits(pre.users_view()[sender], ci));
                lemma_reward_monotonic(pre.users_view()[k], ci);
            }
        }
    }
}

/// Monotonicity across a withdrawal: no account's accrued reward decreases
/// (the reward stays claimable even when the whole balance leaves).
pub proof fn lemma_unstake_monotonic(
    pre: ContractState,
    post: ContractState,
    now: u64,
    sender: Seq<char>,
    amount: u128,
    sender_val: String,
    r: Result<TransferMsg, ContractError>,
)
    requires
        pre.wf(),
        unstake_fits(pre, now, sender, amount),
        unstake_post(pre, post, now, sender, amount, sender_val, r),
    ensures
        forall|k: Seq<char>| #[trigger]
            pre.users_view().contains_key(k) ==> post.users_view().contains_key(k)
                && pre.users_view()[k].reward <= post.users_view()[k].reward,
{
    if r is Ok {
        let ci = spec_settle(pre.reward, now).cur_sum_index;
        assert forall|k: Seq<char>| #[trigger] pre.users_view().contains_key(k) implies post.users_view().contains_key(
            k,
        ) && pre.users_view()[k].reward <= post.users_view()[k].reward by {
            if k == sender {
                lemma_reward_monotonic(pre.users_view()[k], ci);
            }
        }
    }
}

/// Monotonicity across a forced settlement: no account's accrued reward
/// decreases.
pub proof fn lemma_force_settle_monotonic(
    pre: ContractState,
    post: ContractState,
    now: u64,
    account: Seq<char>,
    r: Result<(), ContractError>,
)
    requires
        pre.wf(),
        touch_fits(pre, now, account),
        force_settle_post(pre, post, now, account, r),
    ensures
        forall|k: Seq<char>| #[trigger]
            pre.users_view().contains_key(k) ==> post.users_view().contains_key(k)
                && pre.users_view()[k].reward <= post.users_view()[k].reward,
{
    let ci = spec_settle(pre.reward, now).cur_sum_index;
    assert forall|k: Seq<char>| #[trigger] pre.users_view().contains_key(k) implies post.users_view().contains_key(
        k,
    ) && pre.users_view()[k].reward <= post.users_view()[k].reward by {
        if k == account {
            lemma_reward_monotonic(pre.users_view()[k], ci);
        }
    }
}

/// Monotonicity across a claim, for everyone but the claimer: only the
/// claiming account's accrued reward is reset.
pub proof fn lemma_claim_monotonic(
    pre: ContractState,
    post: ContractState,
    now: u64,
    sender: Seq<char>,
    sender_val: String,
    r: Result<TransferMsg, ContractError>,
)
    requires
        pre.wf(),
        touch_fits(pre, now, sender),
        claim_post(pre, post, now, sender, sender_val, r),
    ensures
        forall|k: Seq<char>| #[trigger]
            pre.users_view().contains_key(k) && k != sender ==> post.users_view().contains_key(k)
                && pre.users_view()[k].reward <= post.users_view()[k].reward,
{
}

/// Idempotence of ledger settlement: settling again at the same timestamp,
/// with nothing changed in between, is a no-op.
pub proof fn lemma_settle_idempotent(r: RewardInfo, now: u64)
    requires
        settle_fits(r, now),
    ensures
        spec_settle(spec_settle(r, now), now) == spec_settle(r, now),
{
}

/// Idempotence of account settlement: settling again against the same index,
/// with nothing changed in between, is a no-op.
pub proof fn lemma_settle_user_idempotent(u: StakeInfo, ci: u128)
    requires
        user_fits(u, ci),
    ensures
        settled_user(settled_user(u, ci), ci) == settled_user(u, ci),
{
    let s = settled_user(u, ci);
    let d = ci as int - s.index as int;
    assert(d * (s.balance as int) == 0) by (nonlinear_arith)
        requires
            d == 0,
    ;
    lemma_div_of0(PRECISION as int);
    assert(user_gain(s, ci) == 0);
}

/// Idempotence of a forced settlement: running it twice at the same
/// timestamp with no operation in between leaves, the second time, every
/// observable part of the pool exactly as the first left it.
pub proof fn lemma_force_settle_idempotent(
    s1: ContractState,
    s2: ContractState,
    s3: ContractState,
    now: u64,
    account: Seq<char>,
)
    requires
        s1.wf(),
        touch_fits(s1, now, account),
        force_settle_post(s1, s2, now, account, Ok(())),
        force_settle_post(s2, s3, now, account, Ok(())),
    ensures
        s3.reward == s2.reward,
        s3.users_view() == s2.users_view(),
        s3.config == s2.config,
        s3.oracle == s2.oracle,
{
    let ci = spec_settle(s1.reward, now).cur_sum_index;
    assert(s2.reward.last_update == now);
    assert(spec_settle(s2.reward, now) == s2.reward);
    let p = position_before(s1, account, ci);
    assert(s2.users_view()[account] == p);
    let d = ci as int - p.index as int;
    assert(d * (p.balance as int) == 0) by (nonlinear_arith)
        requires
            d == 0,
    ;
    lemma_div_of0(PRECISION as int);
    assert(user_gain(p, ci) == 0);
    assert(position_before(s2, account, ci) == p);
    assert(s3.users_view() =~= s2.users_view());
}

/// Proportional fairness: two accounts with the same checkpoint whose
/// balances stand in ratio `p : q` earn, from the same index advance,
/// settlement gains in ratio `p : q` within one floor-rounding unit (stated
/// as strict cross-multiplied bounds).
pub proof fn lemma_proportional_fairness(u1: StakeInfo, u2: StakeInfo, ci: u128, p: int, q: int)
    requires
        u1.index == u2.index,
        u1.index <= ci,
        p > 0,
        q > 0,
        (u1.balance as int) * q == (u2.balance as int) * p,
    ensures
        q * user_gain(u1, ci) < p * (user_gain(u2, ci) + 1),
        p * user_gain(u2, ci) < q * (user_gain(u1, ci) + 1),
{
    let d = ci as int - u1.index as int;
    let b1 = u1.balance as int;
    let b2 = u2.balance as int;
    let s = PRECISION as int;
    let g1 = user_gain(u1, ci);
    let g2 = user_gain(u2, ci);
    let r1 = (d * b1) % s;
    let r2 = (d * b2) % s;
    lemma_fundamental_div_mod(d * b1, s);
    lemma_fundamental_div_mod(d * b2, s);
    lemma_mod_bound(d * b1, s);
    lemma_mod_bound(d * b2, s);
    assert(q * g1 < p * (g2 + 1) && p * g2 < q * (g1 + 1)) by (nonlinear_arith)
        requires
            d * b1 == s * g1 + r1,
            d * b2 == s * g2 + r2,
            0 <= r1 < s,
            0 <= r2 < s,
            b1 * q == b2 * p,
            d >= 0,
            p > 0,
            q > 0,
            s > 0,
    ;
}

/// Rate-change non-retroactivity: whatever new rate the updater picks at
/// time `now`, the settled index — which alone encodes all reward accrued
/// for the time before `now` — and every account record come out the same.
pub proof fn lemma_rate_change_non_retroactive(
    pre: ContractState,
    post1: ContractState,
    post2: ContractState,
    now: u64,
    sender: Seq<char>,
    rps1: u128,
    rps2: u128,
)
    requires
        update_rps_post(pre, post1, now, sender, rps1, Ok(())),
        update_rps_post(pre, post2, now, sender, rps2, Ok(())),
    ensures
        post1.reward.cur_sum_index == post2.reward.cur_sum_index,
        post1.reward.cur_sum_index == spec_settle(pre.reward, now).cur_sum_index,
        post1.users == post2.users,
{
}

/// After the rate change at `now`, accrual over any later interval is
/// governed by the new rate alone: the old rate no longer appears in the
/// settled index.
pub proof fn lemma_rate_change_forward(
    pre: ContractState,
    post: ContractState,
    now: u64,
    sender: Seq<char>,
    new_rps: u128,
    later: u64,
)
    requires
        update_rps_post(pre, post, now, sender, new_rps, Ok(())),
        now < later,
        post.reward.total_stake > 0,
    ensures
        settled_index(post.reward, later) == post.reward.cur_sum_index + (new_rps as int) * ((
        later - now) as int) * (PRECISION as int) / (post.reward.total_stake as int),
{
}

} // verus!
