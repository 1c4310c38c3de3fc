//! LP staking rewards. Each pool has a reward index that grows with the blocks, in
//! proportion to the pool's allocation points and inversely to what is staked in it;
//! a staker is paid the growth of the index since it was last paid, times its stake.
//! The caller loads the configuration, pools and stakes, and stores what comes back.
use vstd::prelude::*;

use crate::decimal::{div_floor, Decimal};
use crate::lp_staking::error::ContractError;
use crate::lp_staking::state::{Config, PoolInfo, UserInfo};
use crate::voting_escrow::utils::{checked_mul_uint128, checked_mul_uint128_spec};

verus! {

/// A CW20 transfer of `amount` of `token` to `recipient`.
#[derive(Clone, Debug, PartialEq, Eq)]
pub struct Cw20Transfer {
    pub token: String,
    pub recipient: String,
    pub amount: u128,
}

/// The configuration of a new staking contract, with no active pool.
pub fn instantiate(
    admin: String,
    deposit_token: String,
    reward_token: String,
    tokens_per_block: u128,
    total_alloc_point: u128,
    start_block: u64,
) -> (r: Config)
    ensures
        r.admin == admin,
        r.deposit_token == deposit_token,
        r.reward_token == reward_token,
        r.tokens_per_block == tokens_per_block,
        r.total_alloc_point == total_alloc_point,
        r.start_block == start_block,
        r.active_pools@.len() == 0,
{
    Config {
        admin,
        deposit_token,
        tokens_per_block,
        total_alloc_point,
        start_block,
        reward_token,
        active_pools: Vec::new(),
    }
}

/// The rewards of `n_blocks` for a pool with `alloc_point` out of `total_alloc_point`:
/// `n_blocks * tokens_per_block * alloc_point / total_alloc_point`, rounded down (zero
/// where there are no allocation points); `None` where a product leaves 128 bits.
pub open spec fn rewards_spec(
    n_blocks: int,
    tokens_per_block: int,
    alloc_point: int,
    total_alloc_point: int,
) -> Option<int> {
    let a = n_blocks * tokens_per_block;
    if a > u128::MAX {
        None
    } else if a * alloc_point > u128::MAX {
        None
    } else if total_alloc_point == 0 {
        Some(0)
    } else {
        Some(a * alloc_point / total_alloc_point)
    }
}

/// The rewards accrued over `n_blocks` by a pool with `alloc_point`.
pub fn calculate_rewards(n_blocks: u64, alloc_point: u128, cfg: &Config) -> (r: Result<
    u128,
    ContractError,
>)
    ensures
        match rewards_spec(
            n_blocks as int,
            cfg.tokens_per_block as int,
            alloc_point as int,
            cfg.total_alloc_point as int,
        ) {
            Some(v) => r == Ok::<u128, ContractError>(v as u128),
            None => r == Err::<u128, ContractError>(ContractError::Overflow),
        },
{
    let a = match (n_blocks as u128).checked_mul(cfg.tokens_per_block) {
        Some(a) => a,
        None => {
            return Err(ContractError::Overflow);
        },
    };
    let b = match a.checked_mul(alloc_point) {
        Some(b) => b,
        None => {
            return Err(ContractError::Overflow);
        },
    };
    if cfg.total_alloc_point == 0 {
        return Ok(0);
    }
    Ok(b / cfg.total_alloc_point)
}

/// The allocation point of the first of `pools` named `lp_token`; zero where none is.
pub open spec fn alloc_point_of(pools: Seq<(String, u128)>, lp_token: Seq<char>) -> u128
    decreases pools.len(),
{
    if pools.len() == 0 {
        0
    } else if pools[0].0@ == lp_token {
        pools[0].1
    } else {
        alloc_point_of(pools.drop_first(), lp_token)
    }
}

/// The allocation point of `lp_token` among `pools`.
pub fn get_alloc_point(pools: &Vec<(String, u128)>, lp_token: &String) -> (r: u128)
    ensures
        r == alloc_point_of(pools@, lp_token@),
{
    let mut i: usize = 0;
    assert(pools@.skip(0) =~= pools@);
    while i < pools.len()
        invariant
            i <= pools@.len(),
            alloc_point_of(pools@, lp_token@) == alloc_point_of(pools@.skip(i as int), lp_token@),
        decreases pools@.len() - i,
    {
        assert(pools@.skip(i as int).drop_first() =~= pools@.skip(i + 1));
        if pools[i].0 == *lp_token {
            return pools[i].1;
        }
        i = i + 1;
    }
    assert(pools@.skip(i as int).len() == 0);
    0
}

/// `pool` after accounting its rewards up to `height`, for `alloc_point`: the reward
/// index grows by the rewards per staked token (where anything is staked), and the
/// pool is accounted up to `height`; `None` where the index leaves the range.
pub open spec fn accumulated(height: u64, pool: PoolInfo, alloc_point: u128, cfg: Config) -> Option<
    PoolInfo,
> {
    if height <= pool.last_reward_block {
        Some(pool)
    } else if pool.total_supply == 0 {
        Some(PoolInfo { last_reward_block: height, ..pool })
    } else {
        match rewards_spec(
            height - pool.last_reward_block,
            cfg.tokens_per_block as int,
            alloc_point as int,
            cfg.total_alloc_point as int,
        ) {
            None => None,
            Some(rewards) => {
                let index = pool.reward_global_index.atomics + div_floor(
                    rewards,
                    pool.total_supply as int,
                );
                if index > u128::MAX {
                    None
                } else {
                    Some(
                        PoolInfo {
                            reward_global_index: Decimal { atomics: index as u128 },
                            last_reward_block: height,
                            ..pool
                        },
                    )
                }
            },
        }
    }
}

/// Accounting a pool twice at the same height is accounting it once: the second pass
/// finds the pool accounted up to that height and changes nothing.
pub proof fn lemma_accumulate_idempotent(height: u64, pool: PoolInfo, alloc_point: u128, cfg: Config)
    requires
        accumulated(height, pool, alloc_point, cfg) is Some,
    ensures
        accumulated(height, accumulated(height, pool, alloc_point, cfg)->0, alloc_point, cfg)
            == accumulated(height, pool, alloc_point, cfg),
{
}

/// Accounting never lowers a pool's reward index, nor moves its accounted block back.
pub proof fn lemma_accumulate_monotone(height: u64, pool: PoolInfo, alloc_point: u128, cfg: Config)
    requires
        accumulated(height, pool, alloc_point, cfg) is Some,
    ensures
        accumulated(height, pool, alloc_point, cfg)->0.reward_global_index.atomics
            >= pool.reward_global_index.atomics,
        accumulated(height, pool, alloc_point, cfg)->0.last_reward_block >= pool.last_reward_block,
        accumulated(height, pool, alloc_point, cfg)->0.total_supply == pool.total_supply,
{
    if height > pool.last_reward_block && pool.total_supply != 0 {
        match rewards_spec(
            height - pool.last_reward_block,
            cfg.tokens_per_block as int,
            alloc_point as int,
            cfg.total_alloc_point as int,
        ) {
            Some(rewards) => {
                let n = height - pool.last_reward_block;
                let a = n * cfg.tokens_per_block;
                assert(a >= 0) by (nonlinear_arith)
                    requires
                        n > 0,
                        a == n * cfg.tokens_per_block,
                ;
                assert(a * alloc_point >= 0) by (nonlinear_arith)
                    requires
                        a >= 0,
                ;
                if cfg.total_alloc_point != 0 {
                    assert(a * alloc_point / (cfg.total_alloc_point as int) >= 0) by (nonlinear_arith)
                        requires
                            a * alloc_point >= 0,
                            cfg.total_alloc_point > 0,
                    ;
                }
                assert(div_floor(rewards, pool.total_supply as int) >= 0) by (nonlinear_arith)
                    requires
                        rewards >= 0,
                        pool.total_supply > 0,
                ;
            },
            None => {},
        }
    }
}

/// The rewards per staked token that accrue to `pool` up to `height` fit in a decimal.
pub open spec fn share_fits(height: u64, pool: PoolInfo, alloc_point: u128, cfg: Config) -> bool {
    height > pool.last_reward_block && pool.total_supply != 0 ==> match rewards_spec(
        height - pool.last_reward_block,
        cfg.tokens_per_block as int,
        alloc_point as int,
        cfg.total_alloc_point as int,
    ) {
        Some(rewards) => div_floor(rewards, pool.total_supply as int) <= u128::MAX,
        None => true,
    }
}

/// Accounts the rewards of the pool of `lp_token` up to `height`; where the index
/// would leave the range, `Overflow` and the pool unchanged.
pub fn accumulate_rewards_per_share(
    height: u64,
    lp_token: &String,
    pool: &mut PoolInfo,
    cfg: &Config,
) -> (r: Result<(), ContractError>)
    requires
        share_fits(height, *old(pool), alloc_point_of(cfg.active_pools@, lp_token@), *cfg),
    ensures
        match accumulated(height, *old(pool), alloc_point_of(cfg.active_pools@, lp_token@), *cfg) {
            Some(p) => r is Ok && *final(pool) == p,
            None => r == Err::<(), ContractError>(ContractError::Overflow) && *final(pool) == *old(
                pool,
            ),
        },
{
    let supply = pool.total_supply;
    if height > pool.last_reward_block {
        if supply != 0 {
            let alloc_point = get_alloc_point(&cfg.active_pools, lp_token);
            let rewards = match calculate_rewards(height - pool.last_reward_block, alloc_point, cfg) {
                Ok(v) => v,
                Err(e) => {
                    return Err(e);
                },
            };
            let share = Decimal::from_ratio(rewards, supply);
            match pool.reward_global_index.checked_add(share) {
                Some(d) => {
                    pool.reward_global_index = d;
                },
                None => {
                    return Err(ContractError::Overflow);
                },
            }
        }
        pool.last_reward_block = height;
    }
    Ok(())
}

/// The staker's pending rewards can be computed: its index is not ahead of the pool's
/// and the product fits.
pub open spec fn pending_ok(pool: PoolInfo, user: UserInfo) -> bool {
    user.amount != 0 ==> {
        &&& user.reward_user_index.atomics <= pool.reward_global_index.atomics
        &&& checked_mul_uint128_spec(
            pool.reward_global_index.atomics - user.reward_user_index.atomics,
            user.amount as int,
        ) is Some
    }
}

/// Whether the rewards per staked token that accrue to `pool` up to `height` fit in a
/// decimal (see `share_fits`).
pub fn check_share_fits(height: u64, lp_token: &String, pool: &PoolInfo, cfg: &Config) -> (r: bool)
    ensures
        r == share_fits(height, *pool, alloc_point_of(cfg.active_pools@, lp_token@), *cfg),
{
    if height > pool.last_reward_block && pool.total_supply != 0 {
        let alloc_point = get_alloc_point(&cfg.active_pools, lp_token);
        match calculate_rewards(height - pool.last_reward_block, alloc_point, cfg) {
            Ok(rewards) => Decimal::raw(rewards).checked_div(Decimal::raw(pool.total_supply)).is_some(),
            Err(_) => true,
        }
    } else {
        true
    }
}

/// Whether the staker's pending rewards in `pool` can be computed (see `pending_ok`).
pub fn check_pending(pool: &PoolInfo, user: &UserInfo) -> (r: bool)
    ensures
        r == pending_ok(*pool, *user),
{
    if user.amount == 0 {
        return true;
    }
    if user.reward_user_index.atomics > pool.reward_global_index.atomics {
        return false;
    }
    let growth = Decimal::raw(pool.reward_global_index.atomics - user.reward_user_index.atomics);
    checked_mul_uint128(growth, user.amount).is_ok()
}

/// The rewards `user` has earned in `pool` since it was last paid: the growth of the
/// index times its stake, rounded down.
pub open spec fn pending_spec(pool: PoolInfo, user: UserInfo) -> int {
    checked_mul_uint128_spec(
        pool.reward_global_index.atomics - user.reward_user_index.atomics,
        user.amount as int,
    )->0
}

/// The transfer of `user`'s pending rewards to `to`, where there are any.
pub open spec fn pending_transfer(cfg: Config, pool: PoolInfo, user: UserInfo, to: String) -> Option<
    Cw20Transfer,
> {
    if user.amount == 0 || pending_spec(pool, user) == 0 {
        None
    } else {
        Some(
            Cw20Transfer {
                token: cfg.reward_token,
                recipient: to,
                amount: pending_spec(pool, user) as u128,
            },
        )
    }
}

/// Pays `user`'s pending rewards in `pool` to `to`.
pub fn send_pending_rewards(cfg: &Config, pool: &PoolInfo, user: &UserInfo, to: &String) -> (r:
    Option<Cw20Transfer>)
    requires
        pending_ok(*pool, *user),
    ensures
        r == pending_transfer(*cfg, *pool, *user, *to),
{
    if user.amount == 0 {
        return None;
    }
    let growth = Decimal { atomics: pool.reward_global_index.atomics - user.reward_user_index.atomics };
    let pending = match checked_mul_uint128(growth, user.amount) {
        Ok(p) => p,
        Err(_) => {
            proof {
                assert(false);
            }
            0
        },
    };
    if pending == 0 {
        return None;
    }
    Some(Cw20Transfer { token: cfg.reward_token.clone(), recipient: to.clone(), amount: pending })
}

/// `user`'s stake in `lp_token` after `height` can be changed: the pool's rewards per
/// token fit, and so do its pending rewards.
pub open spec fn can_account(height: u64, lp_token: String, pool: PoolInfo, user: UserInfo, cfg: Config) -> bool {
    let alloc_point = alloc_point_of(cfg.active_pools@, lp_token@);
    &&& share_fits(height, pool, alloc_point, cfg)
    &&& accumulated(height, pool, alloc_point, cfg) matches Some(p) ==> pending_ok(p, user)
}

/// `beneficiary` stakes `amount` more LP tokens of `lp_token` at `height`: the pool is
/// accounted, the pending rewards paid, the stake grows, and the pool's supply grows by
/// the whole new stake.
pub fn deposit(
    height: u64,
    lp_token: &String,
    beneficiary: &String,
    amount: u128,
    pool: &mut PoolInfo,
    user: &mut UserInfo,
    cfg: &Config,
) -> (r: Result<Option<Cw20Transfer>, ContractError>)
    requires
        can_account(height, *lp_token, *old(pool), *old(user), *cfg),
        accumulated(height, *old(pool), alloc_point_of(cfg.active_pools@, lp_token@), *cfg) matches Some(
            p,
        ) ==> old(user).amount + amount <= u128::MAX && p.total_supply + old(user).amount + amount
            <= u128::MAX,
    ensures
        match accumulated(height, *old(pool), alloc_point_of(cfg.active_pools@, lp_token@), *cfg) {
            None => r == Err::<Option<Cw20Transfer>, ContractError>(ContractError::Overflow)
                && *final(pool) == *old(pool) && *final(user) == *old(user),
            Some(p) => {
                &&& r == Ok::<Option<Cw20Transfer>, ContractError>(
                    pending_transfer(*cfg, p, *old(user), *beneficiary),
                )
                &&& final(user).amount == old(user).amount + amount
                &&& final(user).reward_user_index == p.reward_global_index
                &&& *final(pool) == (PoolInfo {
                    total_supply: (p.total_supply + old(user).amount + amount) as u128,
                    ..p
                })
            },
        },
{
    match accumulate_rewards_per_share(height, lp_token, pool, cfg) {
        Ok(()) => {},
        Err(e) => {
            return Err(e);
        },
    }
    let rewards = send_pending_rewards(cfg, pool, user, beneficiary);
    user.amount = user.amount + amount;
    user.reward_user_index = pool.reward_global_index;
    pool.total_supply = pool.total_supply + user.amount;
    Ok(rewards)
}

/// `account` withdraws `amount` of its LP tokens of `lp_token` at `height`:
/// `BalanceTooSmall` where it has fewer staked; else the pool is accounted, the pending
/// rewards paid, the LP tokens sent back (where `amount` is not zero), and the pool's
/// supply shrinks by what stays staked.
pub fn withdraw(
    height: u64,
    lp_token: &String,
    account: &String,
    amount: u128,
    pool: &mut PoolInfo,
    user: &mut UserInfo,
    cfg: &Config,
) -> (r: Result<(Option<Cw20Transfer>, Option<Cw20Transfer>), ContractError>)
    requires
        amount <= old(user).amount ==> can_account(height, *lp_token, *old(pool), *old(user), *cfg),
        amount <= old(user).amount ==> (accumulated(
            height,
            *old(pool),
            alloc_point_of(cfg.active_pools@, lp_token@),
            *cfg,
        ) matches Some(p) ==> old(user).amount - amount <= p.total_supply),
    ensures
        old(user).amount < amount ==> r == Err::<
            (Option<Cw20Transfer>, Option<Cw20Transfer>),
            ContractError,
        >(ContractError::BalanceTooSmall) && *final(pool) == *old(pool) && *final(user) == *old(
            user,
        ),
        amount <= old(user).amount ==> match accumulated(
            height,
            *old(pool),
            alloc_point_of(cfg.active_pools@, lp_token@),
            *cfg,
        ) {
            None => r == Err::<(Option<Cw20Transfer>, Option<Cw20Transfer>), ContractError>(
                ContractError::Overflow,
            ) && *final(pool) == *old(pool) && *final(user) == *old(user),
            Some(p) => {
                &&& r == Ok::<(Option<Cw20Transfer>, Option<Cw20Transfer>), ContractError>(
                    (
                        pending_transfer(*cfg, p, *old(user), *account),
                        if amount == 0 {
                            None
                        } else {
                            Some(Cw20Transfer { token: *lp_token, recipient: *account, amount })
                        },
                    ),
                )
                &&& final(user).amount == old(user).amount - amount
                &&& final(user).reward_user_index == p.reward_global_index
                &&& *final(pool) == (PoolInfo {
                    total_supply: (p.total_supply - (old(user).amount - amount)) as u128,
                    ..p
                })
            },
        },
{
    if user.amount < amount {
        return Err(ContractError::BalanceTooSmall);
    }
    match accumulate_rewards_per_share(height, lp_token, pool, cfg) {
        Ok(()) => {},
        Err(e) => {
            return Err(e);
        },
    }
    let rewards = send_pending_rewards(cfg, pool, user, account);
    let transfer = if amount != 0 {
        Some(Cw20Transfer { token: lp_token.clone(), recipient: account.clone(), amount })
    } else {
        None
    };
    user.amount = user.amount - amount;
    user.reward_user_index = pool.reward_global_index;
    pool.total_supply = pool.total_supply - user.amount;
    Ok((rewards, transfer))
}

/// `account` claims its rewards in the pool of `lp_token` at `height`: the pool is
/// accounted and the pending rewards paid.
pub fn claim_rewards(
    height: u64,
    lp_token: &String,
    account: &String,
    pool: &mut PoolInfo,
    user: &mut UserInfo,
    cfg: &Config,
) -> (r: Result<Option<Cw20Transfer>, ContractError>)
    requires
        can_account(height, *lp_token, *old(pool), *old(user), *cfg),
    ensures
        match accumulated(height, *old(pool), alloc_point_of(cfg.active_pools@, lp_token@), *cfg) {
            None => r == Err::<Option<Cw20Transfer>, ContractError>(ContractError::Overflow)
                && *final(pool) == *old(pool) && *final(user) == *old(user),
            Some(p) => {
                &&& r == Ok::<Option<Cw20Transfer>, ContractError>(
                    pending_transfer(*cfg, p, *old(user), *account),
                )
                &&& *final(user) == (UserInfo {
                    reward_user_index: p.reward_global_index,
                    ..*old(user)
                })
                &&& *final(pool) == p
            },
        },
{
    match accumulate_rewards_per_share(height, lp_token, pool, cfg) {
        Ok(()) => {},
        Err(e) => {
            return Err(e);
        },
    }
    let rewards = send_pending_rewards(cfg, pool, user, account);
    user.reward_user_index = pool.reward_global_index;
    Ok(rewards)
}

/// A new pool, accounted from the later of the start block and `height`.
pub fn create_pool(height: u64, cfg: &Config) -> (r: PoolInfo)
    ensures
        r.last_reward_block == if cfg.start_block > height {
            cfg.start_block
        } else {
            height
        },
        !r.has_asset_rewards,
        r.reward_global_index.atomics == 0,
        r.total_supply == 0,
{
    let last_reward_block = if cfg.start_block > height {
        cfg.start_block
    } else {
        height
    };
    PoolInfo {
        last_reward_block,
        has_asset_rewards: false,
        reward_global_index: Decimal::zero(),
        total_supply: 0,
    }
}

/// No two of `pools` have the same name.
pub open spec fn distinct_pools(pools: Seq<(String, u128)>) -> bool {
    forall|i: int, j: int| 0 <= i < j < pools.len() ==> #[trigger] pools[i].0@ != #[trigger] pools[j].0@
}

/// The sum of the allocation points of `pools`.
pub open spec fn total_alloc(pools: Seq<(String, u128)>) -> int
    decreases pools.len(),
{
    if pools.len() == 0 {
        0
    } else {
        total_alloc(pools.drop_last()) + pools.last().1
    }
}

fn pools_distinct(pools: &Vec<(String, u128)>) -> (r: bool)
    ensures
        r == distinct_pools(pools@),
{
    let mut j: usize = 0;
    while j < pools.len()
        invariant
            j <= pools@.len(),
            forall|a: int, b: int| 0 <= a < b < j ==> #[trigger] pools@[a].0@ != #[trigger] pools@[b].0@,
        decreases pools@.len() - j,
    {
        let mut i: usize = 0;
        while i < j
            invariant
                i <= j < pools@.len(),
                forall|a: int| 0 <= a < i ==> #[trigger] pools@[a].0@ != pools@[j as int].0@,
            decreases j - i,
        {
            if pools[i].0 == pools[j].0 {
                return false;
            }
            i = i + 1;
        }
        j = j + 1;
    }
    true
}

fn sum_alloc(pools: &Vec<(String, u128)>) -> (r: u128)
    requires
        total_alloc(pools@) <= u128::MAX,
    ensures
        r == total_alloc(pools@),
{
    let mut i: usize = 0;
    let mut sum: u128 = 0;
    while i < pools.len()
        invariant
            i <= pools@.len(),
            total_alloc(pools@) <= u128::MAX,
            sum == total_alloc(pools@.subrange(0, i as int)),
        decreases pools@.len() - i,
    {
        assert(pools@.subrange(0, i + 1).drop_last() =~= pools@.subrange(0, i as int));
        proof {
            lemma_total_alloc_prefix(pools@, i + 1);
        }
        sum = sum + pools[i].1;
        i = i + 1;
    }
    assert(pools@.subrange(0, i as int) =~= pools@);
    sum
}

/// A prefix has no more allocation points than the whole.
proof fn lemma_total_alloc_prefix(pools: Seq<(String, u128)>, n: int)
    requires
        0 <= n <= pools.len(),
    ensures
        total_alloc(pools.subrange(0, n)) <= total_alloc(pools),
    decreases pools.len() - n,
{
    if n < pools.len() {
        lemma_total_alloc_prefix(pools, n + 1);
        assert(pools.subrange(0, n + 1).drop_last() =~= pools.subrange(0, n));
    } else {
        assert(pools.subrange(0, n) =~= pools);
    }
}

/// The admin (`sender`) sets the active pools and their allocation points; the total
/// is their sum. `Unauthorized` for anyone else, `PoolDuplicate` where a pool is listed
/// twice, and then nothing changes.
pub fn setup_pools(cfg: &mut Config, sender: &String, pools: Vec<(String, u128)>) -> (r: Result<
    (),
    ContractError,
>)
    requires
        sender@ == old(cfg).admin@ && distinct_pools(pools@) ==> total_alloc(pools@)
            <= u128::MAX,
    ensures
        sender@ != old(cfg).admin@ ==> r == Err::<(), ContractError>(ContractError::Unauthorized)
            && *final(cfg) == *old(cfg),
        sender@ == old(cfg).admin@ && !distinct_pools(pools@) ==> r == Err::<(), ContractError>(
            ContractError::PoolDuplicate,
        ) && *final(cfg) == *old(cfg),
        sender@ == old(cfg).admin@ && distinct_pools(pools@) ==> r is Ok && *final(cfg) == (Config {
            total_alloc_point: total_alloc(pools@) as u128,
            active_pools: pools,
            ..*old(cfg)
        }),
{
    if *sender != cfg.admin {
        return Err(ContractError::Unauthorized);
    }
    if !pools_distinct(&pools) {
        return Err(ContractError::PoolDuplicate);
    }
    cfg.total_alloc_point = sum_alloc(&pools);
    cfg.active_pools = pools;
    Ok(())
}

/// Sets the reward tokens emitted per block.
pub fn set_tokens_per_block(cfg: &mut Config, amount: u128)
    ensures
        *final(cfg) == (Config { tokens_per_block: amount, ..*old(cfg) }),
{
    cfg.tokens_per_block = amount;
}

/// The admin (`sender`) sets the reward token; `Unauthorized`, with nothing changed,
/// for anyone else.
pub fn update_config(cfg: &mut Config, sender: &String, reward_token: String) -> (r: Result<
    (),
    ContractError,
>)
    ensures
        sender@ != old(cfg).admin@ ==> r == Err::<(), ContractError>(ContractError::Unauthorized)
            && *final(cfg) == *old(cfg),
        sender@ == old(cfg).admin@ ==> r is Ok && *final(cfg) == (Config {
            reward_token,
            ..*old(cfg)
        }),
{
    if *sender != cfg.admin {
        return Err(ContractError::Unauthorized);
    }
    cfg.reward_token = reward_token;
    Ok(())
}

/// What `str::to_lowercase` returns.
pub uninterp spec fn lowercase_spec(s: Seq<char>) -> Seq<char>;

/// `s` in lower case. Calls `str::to_lowercase`, which maps each character to its
/// Unicode lower case; the mapping is named, not stated.
#[verifier::external_body]
fn to_lowercase(s: &str) -> (r: String)
    ensures
        r@ == lowercase_spec(s@),
{
    s.to_lowercase()
}

/// Addresses must be given in lower case: `NotLowercase` where `addr` is not.
pub fn check_lowercase(addr: &String) -> (r: Result<(), ContractError>)
    ensures
        r is Ok <==> lowercase_spec(addr@) == addr@,
        r matches Err(e) ==> e == ContractError::NotLowercase,
{
    let lower = to_lowercase(addr.as_str());
    if lower != *addr {
        return Err(ContractError::NotLowercase);
    }
    Ok(())
}

} // verus!
