//! Core records of the pool: the global reward ledger and per-account stakes.

use vstd::prelude::*;

verus! {

/// Fixed scale factor carried through the cumulative index so that integer
/// division does not truncate small per-second emissions to zero.
pub const PRECISION: u128 = 1000000;

/// Seconds in a (365-day) year, used by the APR projection.
pub const SECONDS_PER_YEAR: u128 = 31536000;

/// Global accrual ledger: one instance for the whole pool.
#[derive(Clone, Copy, PartialEq, Eq, Structural, Debug)]
pub struct RewardInfo {
    /// Timestamp (whole seconds) of the last settlement.
    pub last_update: u64,
    /// Scaled cumulative reward-per-unit-staked; never decreases.
    pub cur_sum_index: u128,
    /// Current emission rate, reward units per second.
    pub rps: u128,
    /// Sum of all account balances; kept exact by every operation.
    pub total_stake: u128,
}

/// Per-account checkpoint record.
#[derive(Clone, Copy, PartialEq, Eq, Structural, Debug)]
pub struct StakeInfo {
    /// Amount currently staked by this account.
    pub balance: u128,
    /// Reward owed but not yet claimed.
    pub reward: u128,
    /// The ledger's `cur_sum_index` as of this account's last settlement.
    pub index: u128,
}

/// The index the ledger reaches when settled at `now`: if any stake exists and
/// time has passed, the emission over the elapsed seconds is scaled and divided
/// (floor) by the total stake; otherwise the index is unchanged.
pub open spec fn settled_index(r: RewardInfo, now: u64) -> int {
    if r.total_stake > 0 && now > r.last_update {
        r.cur_sum_index + (r.rps as int) * ((now - r.last_update) as int) * (PRECISION as int)
            / (r.total_stake as int)
    } else {
        r.cur_sum_index as int
    }
}

/// The whole ledger after settlement at `now`: index advanced, `last_update`
/// stamped unconditionally (time during a zero-stake window is forfeited, not
/// carried forward), rate and total stake untouched.
pub open spec fn spec_settle(r: RewardInfo, now: u64) -> RewardInfo {
    RewardInfo {
        last_update: now,
        cur_sum_index: settled_index(r, now) as u128,
        rps: r.rps,
        total_stake: r.total_stake,
    }
}

/// Machine-limit bound: settling the ledger at `now` stays within `u128`
/// (and time never runs backwards).
pub open spec fn settle_fits(r: RewardInfo, now: u64) -> bool {
    &&& r.last_update <= now
    &&& (r.total_stake > 0 && now > r.last_update ==> {
        &&& (r.rps as int) * ((now - r.last_update) as int) * (PRECISION as int) <= u128::MAX as int
        &&& settled_index(r, now) <= u128::MAX as int
    })
}

/// Advance the cumulative reward-per-stake index to `now`.
///
/// This is the ledger-level settlement that every state-changing or
/// reward-reading operation performs first.
pub fn update_cur_sum_index(reward: &mut RewardInfo, now: u64)
    requires
        settle_fits(*old(reward), now),
    ensures
        *final(reward) == spec_settle(*old(reward), now),
        old(reward).cur_sum_index <= final(reward).cur_sum_index,
{
    let time_passed: u64 = now - reward.last_update;
    if reward.total_stake > 0 && time_passed > 0 {
        proof {
            lemma_settle_bounds(*reward, now);
        }
        let emitted: u128 = reward.rps * (time_passed as u128);
        reward.cur_sum_index = reward.cur_sum_index + (emitted * PRECISION) / reward.total_stake;
    }
    reward.last_update = now;
}

/// Newly owed reward for one account when the ledger index stands at `cur`:
/// the index advance since the account's checkpoint, times its balance,
/// unscaled by floor division.
pub open spec fn user_gain(u: StakeInfo, cur: u128) -> int {
    (cur as int - u.index as int) * (u.balance as int) / (PRECISION as int)
}

/// The account record after settling against a ledger index of `cur`:
/// the gain is credited and the checkpoint moves up to `cur`.
pub open spec fn settled_user(u: StakeInfo, cur: u128) -> StakeInfo {
    StakeInfo {
        balance: u.balance,
        reward: (u.reward + user_gain(u, cur)) as u128,
        index: cur,
    }
}

/// Machine-limit bound: settling the account against index `cur` stays within
/// `u128` (and the checkpoint never sits above the ledger index).
pub open spec fn user_fits(u: StakeInfo, cur: u128) -> bool {
    &&& u.index <= cur
    &&& (cur as int - u.index as int) * (u.balance as int) <= u128::MAX as int
    &&& u.reward + user_gain(u, cur) <= u128::MAX as int
}

/// Credit an account with everything it is owed up to the ledger index
/// `cur_sum_index`, and move its checkpoint there.
///
/// Must be called with an already-settled ledger; the account's accrued
/// reward never decreases here.
pub fn settle_user(user: &mut StakeInfo, cur_sum_index: u128)
    requires
        user_fits(*old(user), cur_sum_index),
    ensures
        *final(user) == settled_user(*old(user), cur_sum_index),
        old(user).reward <= final(user).reward,
        final(user).balance == old(user).balance,
{
    proof {
        lemma_user_gain_bounds(*user, cur_sum_index);
    }
    let delta: u128 = cur_sum_index - user.index;
    let gain: u128 = delta * user.balance / PRECISION;
    user.reward = user.reward + gain;
    user.index = cur_sum_index;
}

/// The settlement gain of an account is never negative.
proof fn lemma_user_gain_bounds(u: StakeInfo, cur: u128)
    requires
        u.index <= cur,
    ensures
        user_gain(u, cur) >= 0,
{
    let d = cur as int - u.index as int;
    let b = u.balance as int;
    let p = PRECISION as int;
    assert(d * b >= 0 && d * b / p >= 0) by (nonlinear_arith)
        requires
            d >= 0,
            b >= 0,
            p > 0,
    ;
}

/// The raw emission fits whenever its scaled form does, and settlement never
/// moves the index down.
proof fn lemma_settle_bounds(r: RewardInfo, now: u64)
    requires
        settle_fits(r, now),
        r.total_stake > 0,
        now > r.last_update,
    ensures
        (r.rps as int) * ((now - r.last_update) as int) <= u128::MAX as int,
        r.cur_sum_index <= settled_index(r, now),
{
    let e = (r.rps as int) * ((now - r.last_update) as int);
    let p = PRECISION as int;
    let t = r.total_stake as int;
    assert(e >= 0 && e <= e * p) by (nonlinear_arith)
        requires
            e == (r.rps as int) * ((now - r.last_update) as int),
            r.rps >= 0,
            now > r.last_update,
            p == PRECISION as int,
    ;
    assert(e * p / t >= 0) by (nonlinear_arith)
        requires
            e * p >= 0,
            t > 0,
    ;
}

/// Identities authorized for administrative operations; immutable after
/// initialization.
#[derive(Clone, Debug, PartialEq)]
pub struct Config {
    /// May update the oracle price.
    pub admin: String,
    /// May update the emission rate.
    pub updater: String,
}

/// The whole pool: configuration, the global ledger, the oracle price and
/// one `StakeInfo` record per account, keyed by account identity.
#[derive(Clone, Debug, PartialEq)]
pub struct ContractState {
    pub config: Config,
    pub reward: RewardInfo,
    /// Scaled price used only by the APR projection.
    pub oracle: u128,
    /// Account records; keys are pairwise distinct.
    pub users: Vec<(String, StakeInfo)>,
}

/// Account keys are pairwise distinct.
pub open spec fn unique_keys(s: Seq<(String, StakeInfo)>) -> bool {
    forall|i: int, j: int| 0 <= i < j < s.len() ==> s[i].0@ != s[j].0@
}

/// The account records as a map from account identity to record.
pub open spec fn user_map(s: Seq<(String, StakeInfo)>) -> Map<Seq<char>, StakeInfo>
    decreases s.len(),
{
    if s.len() == 0 {
        Map::empty()
    } else {
        user_map(s.drop_last()).insert(s.last().0@, s.last().1)
    }
}

/// Exact sum of all account balances.
pub open spec fn sum_stakes(s: Seq<(String, StakeInfo)>) -> int
    decreases s.len(),
{
    if s.len() == 0 {
        0
    } else {
        sum_stakes(s.drop_last()) + s.last().1.balance
    }
}

impl ContractState {
    /// Abstract view of the account records.
    pub open spec fn users_view(self) -> Map<Seq<char>, StakeInfo> {
        user_map(self.users@)
    }

    /// Pool invariant, established at initialization and preserved by every
    /// operation: account keys are distinct, `total_stake` equals the exact
    /// sum of all balances (conservation), and no account's checkpoint sits
    /// above the current index.
    pub open spec fn wf(self) -> bool {
        &&& unique_keys(self.users@)
        &&& self.reward.total_stake as int == sum_stakes(self.users@)
        &&& forall|i: int|
            0 <= i < self.users@.len() ==> (#[trigger] self.users@[i]).1.index
                <= self.reward.cur_sum_index
    }
}

/// Appending a record with a fresh key inserts it into the map view, adds its
/// balance to the sum, and keeps keys distinct.
pub proof fn lemma_users_push(s: Seq<(String, StakeInfo)>, p: (String, StakeInfo))
    requires
        forall|i: int| 0 <= i < s.len() ==> s[i].0@ != p.0@,
        unique_keys(s),
    ensures
        user_map(s.push(p)) == user_map(s).insert(p.0@, p.1),
        sum_stakes(s.push(p)) == sum_stakes(s) + p.1.balance,
        unique_keys(s.push(p)),
{
    assert(s.push(p).drop_last() =~= s);
    assert(s.push(p).last() == p);
}

/// Replacing the record at `i` by one with the same key overwrites that key in
/// the map view, adjusts the sum by the balance difference, and keeps keys
/// distinct.
pub proof fn lemma_users_update(s: Seq<(String, StakeInfo)>, i: int, p: (String, StakeInfo))
    requires
        unique_keys(s),
        0 <= i < s.len(),
        p.0@ == s[i].0@,
    ensures
        user_map(s.update(i, p)) == user_map(s).insert(p.0@, p.1),
        sum_stakes(s.update(i, p)) == sum_stakes(s) - s[i].1.balance + p.1.balance,
        unique_keys(s.update(i, p)),
    decreases s.len(),
{
    let t = s.update(i, p);
    if i == s.len() - 1 {
        assert(t.drop_last() =~= s.drop_last());
        assert(t.last() == p);
        assert(user_map(t) =~= user_map(s).insert(p.0@, p.1));
    } else {
        assert(t.drop_last() =~= s.drop_last().update(i, p));
        assert(t.last() == s.last());
        lemma_users_update(s.drop_last(), i, p);
        assert(s.last().0@ != s[i].0@);
        assert(user_map(t) =~= user_map(s).insert(p.0@, p.1));
    }
}

/// The record at any position is what the map view holds for its key.
pub proof fn lemma_users_index(s: Seq<(String, StakeInfo)>, i: int)
    requires
        unique_keys(s),
        0 <= i < s.len(),
    ensures
        user_map(s).contains_key(s[i].0@),
        user_map(s)[s[i].0@] == s[i].1,
    decreases s.len(),
{
    if i < s.len() - 1 {
        lemma_users_index(s.drop_last(), i);
        assert(s.drop_last()[i] == s[i]);
        assert(s.last().0@ != s[i].0@);
    }
}

/// A key is in the map view exactly when some record carries it.
pub proof fn lemma_users_domain(s: Seq<(String, StakeInfo)>, k: Seq<char>)
    ensures
        user_map(s).contains_key(k) <==> exists|i: int| 0 <= i < s.len() && s[i].0@ == k,
    decreases s.len(),
{
    if s.len() > 0 {
        lemma_users_domain(s.drop_last(), k);
        if s.last().0@ == k {
            assert(s[s.len() - 1].0@ == k);
        } else if user_map(s).contains_key(k) {
            let i = choose|i: int| 0 <= i < s.drop_last().len() && s.drop_last()[i].0@ == k;
            assert(s[i].0@ == k);
        } else {
            assert(forall|i: int|
                0 <= i < s.len() - 1 ==> s.drop_last()[i] == s[i]);
        }
    }
}

/// The sum of all balances is non-negative.
pub proof fn lemma_sum_nonneg(s: Seq<(String, StakeInfo)>)
    ensures
        sum_stakes(s) >= 0,
    decreases s.len(),
{
    if s.len() > 0 {
        lemma_sum_nonneg(s.drop_last());
    }
}

/// No single balance exceeds the sum of all balances.
pub proof fn lemma_sum_at_least_entry(s: Seq<(String, StakeInfo)>, i: int)
    requires
        0 <= i < s.len(),
    ensures
        s[i].1.balance <= sum_stakes(s),
    decreases s.len(),
{
    if i == s.len() - 1 {
        lemma_sum_nonneg(s.drop_last());
    } else {
        lemma_sum_at_least_entry(s.drop_last(), i);
        assert(s.drop_last()[i] == s[i]);
    }
}

/// Position of `account` among the records, if it has one.
pub(crate) fn find_user(users: &Vec<(String, StakeInfo)>, account: &String) -> (r: Option<usize>)
    ensures
        match r {
            Some(i) => i < users@.len() && users@[i as int].0@ == account@,
            None => forall|i: int| 0 <= i < users@.len() ==> users@[i].0@ != account@,
        },
{
    let mut i: usize = 0;
    while i < users.len()
        invariant
            i <= users@.len(),
            forall|j: int| 0 <= j < i ==> users@[j].0@ != account@,
        decreases users@.len() - i,
    {
        if users[i].0 == *account {
            return Some(i);
        }
        i = i + 1;
    }
    None
}

} // verus!
