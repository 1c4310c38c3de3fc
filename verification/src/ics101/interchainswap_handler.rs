//! What the interchain swap packets do to a pool: on the chain that receives them,
//! when they are acknowledged, and when they fail and are refunded. Loading and
//! saving the pools and orders, and sending the tokens, is the caller's part; these
//! functions take what was loaded and return what is to be saved or sent.
use vstd::prelude::*;

use crate::coin::Coin;
use crate::ics101::error::ContractError;
use crate::ics101::market::{
    add_asset_spec, can_add_asset, can_subtract_asset, deposit_multi_spec, first_with_side,
    issue_defined, same_except_assets, subtract_asset_spec, InterchainLiquidityPool,
    InterchainMarketMaker, PoolAsset, PoolSide, PoolStatus,
};
use crate::ics101::msg::{
    MsgMakeMultiAssetDepositRequest, MsgMakePoolRequest, MsgMultiAssetWithdrawRequest,
    MsgSingleAssetDepositRequest, MsgSwapRequest, MsgTakeMultiAssetDepositRequest,
    MsgTakePoolRequest, SwapMsgType,
};
use crate::ics101::contract::{deposit_tokens, new_deposit_order};
use crate::ics101::types::{MultiAssetDepositOrder, OrderStatus};

verus! {

/// The sum of the amounts of `coins`.
pub open spec fn sum_amounts(coins: Seq<Coin>) -> int
    decreases coins.len(),
{
    if coins.len() == 0 {
        0
    } else {
        sum_amounts(coins.drop_last()) + coins.last().amount
    }
}

proof fn lemma_sum_prefix(coins: Seq<Coin>, k: int)
    requires
        0 <= k <= coins.len(),
    ensures
        0 <= sum_amounts(coins.take(k)) <= sum_amounts(coins),
    decreases coins.len(),
{
    if coins.len() > 0 {
        if k == coins.len() {
            assert(coins.take(k) =~= coins);
            lemma_sum_prefix(coins.drop_last(), k - 1);
        } else {
            assert(coins.take(k) =~= coins.drop_last().take(k));
            lemma_sum_prefix(coins.drop_last(), k);
        }
    }
}

/// The total amount of `coins`, whatever their denominations.
pub fn total_amount(coins: &Vec<Coin>) -> (r: u128)
    requires
        sum_amounts(coins@) <= u128::MAX,
    ensures
        r == sum_amounts(coins@),
{
    let mut total: u128 = 0;
    let mut i: usize = 0;
    while i < coins.len()
        invariant
            i <= coins@.len(),
            sum_amounts(coins@) <= u128::MAX,
            total == sum_amounts(coins@.take(i as int)),
        decreases coins.len() - i,
    {
        proof {
            assert(coins@.take(i + 1).drop_last() =~= coins@.take(i as int));
            lemma_sum_prefix(coins@, i + 1);
        }
        total = total + coins[i].amount;
        i = i + 1;
    }
    proof {
        assert(coins@.take(coins@.len() as int) =~= coins@);
    }
    total
}

/// The assets after each of `tokens` is added in turn; `None` where one of them has
/// no asset of its denomination.
pub open spec fn add_all_spec(assets: Seq<PoolAsset>, tokens: Seq<Coin>) -> Option<Seq<PoolAsset>>
    decreases tokens.len(),
{
    if tokens.len() == 0 {
        Some(assets)
    } else {
        match add_all_spec(assets, tokens.drop_last()) {
            None => None,
            Some(a) => add_asset_spec(a, tokens.last()),
        }
    }
}

/// No addition of `tokens` overflows.
pub open spec fn can_add_all(assets: Seq<PoolAsset>, tokens: Seq<Coin>) -> bool {
    forall|k: int|
        0 <= k < tokens.len() ==> (#[trigger] add_all_spec(assets, tokens.take(k)) matches Some(a)
            ==> can_add_asset(a, tokens[k]))
}

/// The assets after each of `tokens` is taken in turn; `None` where one of them has no
/// asset of its denomination.
pub open spec fn subtract_all_spec(assets: Seq<PoolAsset>, tokens: Seq<Coin>) -> Option<
    Seq<PoolAsset>,
>
    decreases tokens.len(),
{
    if tokens.len() == 0 {
        Some(assets)
    } else {
        match subtract_all_spec(assets, tokens.drop_last()) {
            None => None,
            Some(a) => subtract_asset_spec(a, tokens.last()),
        }
    }
}

/// No subtraction of `tokens` goes below zero.
pub open spec fn can_subtract_all(assets: Seq<PoolAsset>, tokens: Seq<Coin>) -> bool {
    forall|k: int|
        0 <= k < tokens.len() ==> (#[trigger] subtract_all_spec(assets, tokens.take(k)) matches Some(
            a,
        ) ==> can_subtract_asset(a, tokens[k]))
}

/// Adds each of `tokens` to the pool's assets, in order.
pub fn add_assets(pool: &mut InterchainLiquidityPool, tokens: &Vec<Coin>) -> (r: Result<
    (),
    ContractError,
>)
    requires
        can_add_all(old(pool).assets@, tokens@),
    ensures
        match add_all_spec(old(pool).assets@, tokens@) {
            Some(a) => r is Ok && final(pool).assets@ == a && same_except_assets(
                *final(pool),
                *old(pool),
            ),
            None => r == Err::<(), ContractError>(ContractError::AssetNotFound),
        },
{
    let ghost start = *pool;
    let mut i: usize = 0;
    proof {
        assert(tokens@.take(0) =~= Seq::<Coin>::empty());
    }
    while i < tokens.len()
        invariant
            i <= tokens@.len(),
            start == *old(pool),
            can_add_all(start.assets@, tokens@),
            add_all_spec(start.assets@, tokens@.take(i as int)) == Some(pool.assets@),
            same_except_assets(*pool, start),
        decreases tokens.len() - i,
    {
        proof {
            assert(tokens@.take(i + 1).drop_last() =~= tokens@.take(i as int));
            assert(tokens@.take(i + 1).last() == tokens@[i as int]);
            assert(add_all_spec(start.assets@, tokens@.take(i as int)) matches Some(a) ==> can_add_asset(
                a,
                tokens@[i as int],
            ));
        }
        match pool.add_asset(tokens[i].duplicate()) {
            Ok(_) => {},
            Err(e) => {
                proof {
                    lemma_add_all_none(start.assets@, tokens@, i as int + 1);
                }
                return Err(e);
            },
        }
        i = i + 1;
    }
    proof {
        assert(tokens@.take(tokens@.len() as int) =~= tokens@);
    }
    Ok(())
}

proof fn lemma_add_all_none(assets: Seq<PoolAsset>, tokens: Seq<Coin>, k: int)
    requires
        1 <= k <= tokens.len(),
        add_all_spec(assets, tokens.take(k)) is None,
    ensures
        add_all_spec(assets, tokens) is None,
    decreases tokens.len() - k,
{
    if k < tokens.len() {
        assert(tokens.take(k + 1).drop_last() =~= tokens.take(k));
        lemma_add_all_none(assets, tokens, k + 1);
    } else {
        assert(tokens.take(k) =~= tokens);
    }
}

/// Takes each of `tokens` from the pool's assets, in order.
pub fn subtract_assets(pool: &mut InterchainLiquidityPool, tokens: &Vec<Coin>) -> (r: Result<
    (),
    ContractError,
>)
    requires
        can_subtract_all(old(pool).assets@, tokens@),
    ensures
        match subtract_all_spec(old(pool).assets@, tokens@) {
            Some(a) => r is Ok && final(pool).assets@ == a && same_except_assets(
                *final(pool),
                *old(pool),
            ),
            None => r == Err::<(), ContractError>(ContractError::AssetNotFound),
        },
{
    let ghost start = *pool;
    let mut i: usize = 0;
    proof {
        assert(tokens@.take(0) =~= Seq::<Coin>::empty());
    }
    while i < tokens.len()
        invariant
            i <= tokens@.len(),
            start == *old(pool),
            can_subtract_all(start.assets@, tokens@),
            subtract_all_spec(start.assets@, tokens@.take(i as int)) == Some(pool.assets@),
            same_except_assets(*pool, start),
        decreases tokens.len() - i,
    {
        proof {
            assert(tokens@.take(i + 1).drop_last() =~= tokens@.take(i as int));
            assert(tokens@.take(i + 1).last() == tokens@[i as int]);
            assert(subtract_all_spec(start.assets@, tokens@.take(i as int)) matches Some(a)
                ==> can_subtract_asset(a, tokens@[i as int]));
        }
        match pool.subtract_asset(tokens[i].duplicate()) {
            Ok(_) => {},
            Err(e) => {
                proof {
                    lemma_subtract_all_none(start.assets@, tokens@, i as int + 1);
                }
                return Err(e);
            },
        }
        i = i + 1;
    }
    proof {
        assert(tokens@.take(tokens@.len() as int) =~= tokens@);
    }
    Ok(())
}

proof fn lemma_subtract_all_none(assets: Seq<PoolAsset>, tokens: Seq<Coin>, k: int)
    requires
        1 <= k <= tokens.len(),
        subtract_all_spec(assets, tokens.take(k)) is None,
    ensures
        subtract_all_spec(assets, tokens) is None,
    decreases tokens.len() - k,
{
    if k < tokens.len() {
        assert(tokens.take(k + 1).drop_last() =~= tokens.take(k));
        lemma_subtract_all_none(assets, tokens, k + 1);
    } else {
        assert(tokens.take(k) =~= tokens);
    }
}


/// The supply left after each of `tokens` is taken from it; `None` where one of them
/// is not of the share denomination `denom`.
pub open spec fn subtract_supply_all_spec(denom: Seq<char>, supply: int, tokens: Seq<Coin>) -> Option<
    int,
>
    decreases tokens.len(),
{
    if tokens.len() == 0 {
        Some(supply)
    } else {
        match subtract_supply_all_spec(denom, supply, tokens.drop_last()) {
            None => None,
            Some(s) => if tokens.last().denom@ == denom {
                Some(s - tokens.last().amount)
            } else {
                None
            },
        }
    }
}

/// No subtraction of `tokens` takes the supply below zero.
pub open spec fn can_subtract_supply_all(denom: Seq<char>, supply: int, tokens: Seq<Coin>) -> bool {
    forall|k: int|
        0 <= k < tokens.len() ==> (#[trigger] subtract_supply_all_spec(denom, supply, tokens.take(k))
            matches Some(s) ==> (tokens[k].denom@ == denom ==> tokens[k].amount <= s))
}

/// `pool` with a supply of `amount` shares.
pub open spec fn with_supply(pool: InterchainLiquidityPool, amount: int) -> InterchainLiquidityPool {
    InterchainLiquidityPool { supply: Coin { amount: amount as u128, ..pool.supply }, ..pool }
}

/// Takes each of `tokens` from the pool's share supply, in order.
pub fn subtract_supplies(pool: &mut InterchainLiquidityPool, tokens: &Vec<Coin>) -> (r: Result<
    (),
    ContractError,
>)
    requires
        can_subtract_supply_all(
            old(pool).supply.denom@,
            old(pool).supply.amount as int,
            tokens@,
        ),
    ensures
        match subtract_supply_all_spec(
            old(pool).supply.denom@,
            old(pool).supply.amount as int,
            tokens@,
        ) {
            Some(s) => r is Ok && *final(pool) == with_supply(*old(pool), s),
            None => r == Err::<(), ContractError>(ContractError::SupplyDenomMismatch),
        },
{
    let ghost start = *pool;
    let mut i: usize = 0;
    proof {
        assert(tokens@.take(0) =~= Seq::<Coin>::empty());
    }
    while i < tokens.len()
        invariant
            i <= tokens@.len(),
            start == *old(pool),
            can_subtract_supply_all(start.supply.denom@, start.supply.amount as int, tokens@),
            subtract_supply_all_spec(start.supply.denom@, start.supply.amount as int, tokens@.take(i as int))
                == Some(pool.supply.amount as int),
            *pool == with_supply(start, pool.supply.amount as int),
        decreases tokens.len() - i,
    {
        proof {
            assert(tokens@.take(i + 1).drop_last() =~= tokens@.take(i as int));
            assert(tokens@.take(i + 1).last() == tokens@[i as int]);
            assert(subtract_supply_all_spec(
                start.supply.denom@,
                start.supply.amount as int,
                tokens@.take(i as int),
            ) matches Some(s) ==> (tokens@[i as int].denom@ == start.supply.denom@ ==> tokens@[i as int].amount <= s));
        }
        match pool.subtract_supply(tokens[i].duplicate()) {
            Ok(_) => {},
            Err(e) => {
                proof {
                    lemma_subtract_supply_all_none(
                        start.supply.denom@,
                        start.supply.amount as int,
                        tokens@,
                        i as int + 1,
                    );
                }
                return Err(e);
            },
        }
        i = i + 1;
    }
    proof {
        assert(tokens@.take(tokens@.len() as int) =~= tokens@);
    }
    Ok(())
}

proof fn lemma_subtract_supply_all_none(denom: Seq<char>, supply: int, tokens: Seq<Coin>, k: int)
    requires
        1 <= k <= tokens.len(),
        subtract_supply_all_spec(denom, supply, tokens.take(k)) is None,
    ensures
        subtract_supply_all_spec(denom, supply, tokens) is None,
    decreases tokens.len() - k,
{
    if k < tokens.len() {
        assert(tokens.take(k + 1).drop_last() =~= tokens.take(k));
        lemma_subtract_supply_all_none(denom, supply, tokens, k + 1);
    } else {
        assert(tokens.take(k) =~= tokens);
    }
}

/// The other chain's view of which chain an asset lives on.
pub open spec fn mirror_side(side: PoolSide) -> PoolSide {
    match side {
        PoolSide::SOURCE => PoolSide::DESTINATION,
        PoolSide::DESTINATION => PoolSide::SOURCE,
    }
}

/// The assets with their sides flipped.
pub open spec fn mirrored(assets: Seq<PoolAsset>) -> Seq<PoolAsset> {
    assets.map_values(|a: PoolAsset| PoolAsset { side: mirror_side(a.side), ..a })
}

/// The pool that the chain receiving a make-pool request records: the request's
/// assets with their sides flipped, no shares yet, waiting to be taken.
pub fn on_received_make_pool(msg: &MsgMakePoolRequest, pool_id: String, pool_exists: bool) -> (r: Result<
    InterchainLiquidityPool,
    ContractError,
>)
    requires
        msg.liquidity.len() == 2 ==> msg.liquidity[0].weight + msg.liquidity[1].weight <= u32::MAX,
    ensures
        msg.liquidity.len() != 2 ==> r == Err::<InterchainLiquidityPool, ContractError>(
            ContractError::InvalidDenomPair,
        ),
        msg.liquidity.len() == 2 && msg.liquidity[0].weight + msg.liquidity[1].weight != 100 ==> r
            == Err::<InterchainLiquidityPool, ContractError>(ContractError::InvalidWeightPair),
        msg.liquidity.len() == 2 && msg.liquidity[0].weight + msg.liquidity[1].weight == 100
            && pool_exists ==> r == Err::<InterchainLiquidityPool, ContractError>(
            ContractError::PoolAlreadyExists,
        ),
        msg.liquidity.len() == 2 && msg.liquidity[0].weight + msg.liquidity[1].weight == 100
            && !pool_exists ==> (r matches Ok(p) && {
            &&& p.id == pool_id
            &&& p.assets@ == mirrored(msg.liquidity@)
            &&& p.supply == Coin { denom: pool_id, amount: 0 }
            &&& p.status == PoolStatus::Initialized
            &&& p.source_creator == msg.creator
            &&& p.destination_creator == msg.counterparty_creator
            &&& p.counter_party_port == msg.source_port
            &&& p.counter_party_channel == msg.counterparty_channel
            &&& p.swap_fee == msg.swap_fee
            &&& p.source_chain_id == msg.source_chain_id
            &&& p.destination_chain_id == msg.destination_chain_id
            &&& p.pool_price == 0
        }),
{
    match msg.validate_basic() {
        Ok(_) => {},
        Err(e) => {
            return Err(e);
        },
    }
    if pool_exists {
        return Err(ContractError::PoolAlreadyExists);
    }
    let mut liquidity: Vec<PoolAsset> = Vec::new();
    let mut i: usize = 0;
    while i < msg.liquidity.len()
        invariant
            i <= msg.liquidity@.len(),
            liquidity@ == mirrored(msg.liquidity@.take(i as int)),
        decreases msg.liquidity.len() - i,
    {
        let mut asset = msg.liquidity[i].duplicate();
        asset.side = match asset.side {
            PoolSide::SOURCE => PoolSide::DESTINATION,
            PoolSide::DESTINATION => PoolSide::SOURCE,
        };
        liquidity.push(asset);
        proof {
            assert(liquidity@ =~= mirrored(msg.liquidity@.take(i + 1)));
        }
        i = i + 1;
    }
    proof {
        assert(msg.liquidity@.take(msg.liquidity@.len() as int) =~= msg.liquidity@);
    }
    Ok(
        InterchainLiquidityPool {
            id: pool_id.clone(),
            source_creator: msg.creator.clone(),
            destination_creator: msg.counterparty_creator.clone(),
            assets: liquidity,
            supply: Coin { amount: 0, denom: pool_id },
            status: PoolStatus::Initialized,
            counter_party_port: msg.source_port.clone(),
            counter_party_channel: msg.counterparty_channel.clone(),
            swap_fee: msg.swap_fee,
            source_chain_id: msg.source_chain_id.clone(),
            destination_chain_id: msg.destination_chain_id.clone(),
            pool_price: 0,
        },
    )
}

/// The two balances a pool is funded with when it is taken.
pub open spec fn funding_tokens(pool: InterchainLiquidityPool) -> Seq<Coin> {
    seq![pool.assets@[0].balance, pool.assets@[1].balance]
}

/// Pricing the funding of a taken pool does not panic, and the shares it issues fit.
pub open spec fn funding_defined(pool: InterchainLiquidityPool) -> bool {
    &&& pool.assets@.len() >= 2
    &&& forall|k: int|
        0 <= k < 2 && #[trigger] deposit_multi_spec(pool, funding_tokens(pool), k) is Ok
            ==> issue_defined(pool, funding_tokens(pool)[k])
    &&& deposit_multi_spec(pool, funding_tokens(pool), 2) matches Ok(s) ==> sum_amounts(s)
        <= u128::MAX
}

/// The shares issued for the funding of a taken pool: the sum of what its two balances
/// issue as a two-sided deposit.
pub open spec fn funding_shares(pool: InterchainLiquidityPool) -> Result<int, ContractError> {
    match deposit_multi_spec(pool, funding_tokens(pool), 2) {
        Err(e) => Err(e),
        Ok(s) => Ok(sum_amounts(s)),
    }
}

/// The shares issued when the pool is taken and funded with both its balances.
pub fn take_pool_shares(amm: &InterchainMarketMaker) -> (r: Result<u128, ContractError>)
    requires
        funding_defined(amm.pool),
    ensures
        match funding_shares(amm.pool) {
            Ok(n) => r == Ok::<u128, ContractError>(n as u128) && 0 <= n <= u128::MAX,
            Err(e) => r == Err::<u128, ContractError>(e),
        },
{
    let mut tokens: Vec<Coin> = Vec::new();
    tokens.push(amm.pool.assets[0].balance.duplicate());
    tokens.push(amm.pool.assets[1].balance.duplicate());
    proof {
        assert(tokens@ =~= funding_tokens(amm.pool));
    }
    match amm.deposit_multi_asset(tokens.as_slice()) {
        Ok(pool_tokens) => {
            proof {
                lemma_sum_prefix(pool_tokens@, 0);
            }
            Ok(total_amount(&pool_tokens))
        },
        Err(e) => Err(e),
    }
}

/// The pool once taken: its funding shares join the supply (as a coin of denomination
/// `pool_id`) and it becomes active.
pub open spec fn activated(pool: InterchainLiquidityPool, shares: int) -> InterchainLiquidityPool {
    InterchainLiquidityPool { status: PoolStatus::Active, ..with_supply(pool, pool.supply.amount + shares) }
}

/// Activates a taken pool; `lp_token_required` says whether the share token must
/// already exist, as it must on the chain that receives the take request.
fn activate_pool(
    pool: Option<InterchainLiquidityPool>,
    pool_id: &String,
    lp_token_required: bool,
    lp_token_exists: bool,
) -> (r: Result<(InterchainLiquidityPool, u128), ContractError>)
    requires
        pool matches Some(p) ==> funding_defined(p) && (funding_shares(p) matches Ok(n) ==> (
        pool_id@ == p.supply.denom@ ==> p.supply.amount + n <= u128::MAX)),
    ensures
        match pool {
            None => r == Err::<(InterchainLiquidityPool, u128), ContractError>(
                ContractError::PoolNotFound,
            ),
            Some(p) => match funding_shares(p) {
                Err(e) => r == Err::<(InterchainLiquidityPool, u128), ContractError>(e),
                Ok(n) => if lp_token_required && !lp_token_exists {
                    r == Err::<(InterchainLiquidityPool, u128), ContractError>(
                        ContractError::LpTokenNotInitialized,
                    )
                } else if pool_id@ != p.supply.denom@ {
                    r == Err::<(InterchainLiquidityPool, u128), ContractError>(
                        ContractError::SupplyDenomMismatch,
                    )
                } else {
                    r == Ok::<(InterchainLiquidityPool, u128), ContractError>(
                        (activated(p, n), n as u128),
                    )
                },
            },
        },
{
    let p = match pool {
        Some(p) => p,
        None => {
            return Err(ContractError::PoolNotFound);
        },
    };
    let fee_rate = p.swap_fee;
    let amm = InterchainMarketMaker { pool: p, fee_rate };
    let new_shares = match take_pool_shares(&amm) {
        Ok(n) => n,
        Err(e) => {
            return Err(e);
        },
    };
    if lp_token_required && !lp_token_exists {
        return Err(ContractError::LpTokenNotInitialized);
    }
    let mut p = amm.pool;
    match p.add_supply(Coin { denom: pool_id.clone(), amount: new_shares }) {
        Ok(_) => {},
        Err(e) => {
            return Err(e);
        },
    }
    p.status = PoolStatus::Active;
    Ok((p, new_shares))
}

/// A cancel-pool packet arrived: the pool, where there is one, is marked cancelled and
/// is to be dropped from storage; `PoolNotFound` otherwise.
pub fn on_received_cancel_pool(pool: Option<InterchainLiquidityPool>) -> (r: Result<
    InterchainLiquidityPool,
    ContractError,
>)
    ensures
        match pool {
            None => r == Err::<InterchainLiquidityPool, ContractError>(ContractError::PoolNotFound),
            Some(p) => r == Ok::<InterchainLiquidityPool, ContractError>(
                InterchainLiquidityPool { status: PoolStatus::Cancelled, ..p },
            ),
        },
{
    match pool {
        None => Err(ContractError::PoolNotFound),
        Some(p) => {
            let mut p = p;
            p.status = PoolStatus::Cancelled;
            Ok(p)
        },
    }
}

/// The chain that made a pool receives its take: the pool, funded with both balances,
/// issues its first shares (minted to the taker) and becomes active.
pub fn on_received_take_pool(
    pool: Option<InterchainLiquidityPool>,
    pool_id: &String,
    lp_token_exists: bool,
) -> (r: Result<(InterchainLiquidityPool, u128), ContractError>)
    requires
        pool matches Some(p) ==> funding_defined(p) && (funding_shares(p) matches Ok(n) ==> (
        pool_id@ == p.supply.denom@ ==> p.supply.amount + n <= u128::MAX)),
    ensures
        match pool {
            None => r == Err::<(InterchainLiquidityPool, u128), ContractError>(
                ContractError::PoolNotFound,
            ),
            Some(p) => match funding_shares(p) {
                Err(e) => r == Err::<(InterchainLiquidityPool, u128), ContractError>(e),
                Ok(n) => if !lp_token_exists {
                    r == Err::<(InterchainLiquidityPool, u128), ContractError>(
                        ContractError::LpTokenNotInitialized,
                    )
                } else if pool_id@ != p.supply.denom@ {
                    r == Err::<(InterchainLiquidityPool, u128), ContractError>(
                        ContractError::SupplyDenomMismatch,
                    )
                } else {
                    r == Ok::<(InterchainLiquidityPool, u128), ContractError>(
                        (activated(p, n), n as u128),
                    )
                },
            },
        },
{
    activate_pool(pool, pool_id, true, lp_token_exists)
}

/// The taker's chain learns that its take was received: the pool issues the same
/// first shares and becomes active there too.
pub fn acknowledge_take_pool(pool: Option<InterchainLiquidityPool>, pool_id: &String) -> (r: Result<
    InterchainLiquidityPool,
    ContractError,
>)
    requires
        pool matches Some(p) ==> funding_defined(p) && (funding_shares(p) matches Ok(n) ==> (
        pool_id@ == p.supply.denom@ ==> p.supply.amount + n <= u128::MAX)),
    ensures
        match pool {
            None => r == Err::<InterchainLiquidityPool, ContractError>(ContractError::PoolNotFound),
            Some(p) => match funding_shares(p) {
                Err(e) => r == Err::<InterchainLiquidityPool, ContractError>(e),
                Ok(n) => if pool_id@ != p.supply.denom@ {
                    r == Err::<InterchainLiquidityPool, ContractError>(
                        ContractError::SupplyDenomMismatch,
                    )
                } else {
                    r == Ok::<InterchainLiquidityPool, ContractError>(activated(p, n))
                },
            },
        },
{
    match activate_pool(pool, pool_id, false, true) {
        Ok((p, _)) => Ok(p),
        Err(e) => Err(e),
    }
}

/// The pool after a one-sided deposit of `token` that issued `pool_token`.
pub open spec fn single_deposit_spec(
    pool: InterchainLiquidityPool,
    token: Coin,
    pool_token: Coin,
) -> Result<InterchainLiquidityPool, ContractError> {
    match add_asset_spec(pool.assets@, token) {
        None => Err(ContractError::AssetNotFound),
        Some(a) => if pool_token.denom@ != pool.supply.denom@ {
            Err(ContractError::SupplyDenomMismatch)
        } else {
            Ok(with_supply(pool, pool.supply.amount + pool_token.amount))
        },
    }
}

/// The balances of `result` are `assets`, and the rest is as `single_deposit_spec`
/// gives it.
pub open spec fn single_deposit_result(
    r: Result<InterchainLiquidityPool, ContractError>,
    pool: InterchainLiquidityPool,
    token: Coin,
    pool_token: Coin,
) -> bool {
    match single_deposit_spec(pool, token, pool_token) {
        Err(e) => r == Err::<InterchainLiquidityPool, ContractError>(e),
        Ok(q) => r matches Ok(p) && p.assets@ == add_asset_spec(pool.assets@, token)->0
            && same_except_assets(p, q),
    }
}

/// Adds a one-sided deposit to a pool: its token to the balance and the issued shares
/// to the supply.
fn apply_single_deposit(pool: InterchainLiquidityPool, token: &Coin, pool_token: &Coin) -> (r: Result<
    InterchainLiquidityPool,
    ContractError,
>)
    requires
        can_add_asset(pool.assets@, *token),
        pool_token.denom@ == pool.supply.denom@ ==> pool.supply.amount + pool_token.amount
            <= u128::MAX,
    ensures
        single_deposit_result(r, pool, *token, *pool_token),
{
    let mut p = pool;
    match p.add_asset(token.duplicate()) {
        Ok(_) => {},
        Err(e) => {
            return Err(e);
        },
    }
    match p.add_supply(pool_token.duplicate()) {
        Ok(_) => {},
        Err(e) => {
            return Err(e);
        },
    }
    Ok(p)
}

/// The other chain records a one-sided deposit: the token joins its balance and the
/// shares issued for it join the supply.
pub fn on_received_single_deposit(
    msg: &MsgSingleAssetDepositRequest,
    pool: Option<InterchainLiquidityPool>,
    pool_tokens: &Vec<Coin>,
) -> (r: Result<InterchainLiquidityPool, ContractError>)
    requires
        pool_tokens@.len() >= 1,
        pool matches Some(p) ==> can_add_asset(p.assets@, msg.token) && (pool_tokens@[0].denom@
            == p.supply.denom@ ==> p.supply.amount + pool_tokens@[0].amount <= u128::MAX),
    ensures
        msg.token.amount == 0 ==> r == Err::<InterchainLiquidityPool, ContractError>(
            ContractError::InvalidTokenAmount,
        ),
        msg.token.amount != 0 ==> match pool {
            None => r == Err::<InterchainLiquidityPool, ContractError>(ContractError::PoolNotFound),
            Some(p) => single_deposit_result(r, p, msg.token, pool_tokens@[0]),
        },
{
    match msg.validate_basic() {
        Ok(_) => {},
        Err(e) => {
            return Err(e);
        },
    }
    let p = match pool {
        Some(p) => p,
        None => {
            return Err(ContractError::PoolNotFound);
        },
    };
    apply_single_deposit(p, &msg.token, &pool_tokens[0])
}

/// The depositing chain learns that its one-sided deposit was recorded: the shares are
/// minted to the sender (the amount returned) and the pool is updated as on the other
/// chain.
pub fn acknowledge_single_deposit(
    msg: &MsgSingleAssetDepositRequest,
    pool: Option<InterchainLiquidityPool>,
    lp_token_exists: bool,
    pool_tokens: &Vec<Coin>,
) -> (r: Result<(InterchainLiquidityPool, u128), ContractError>)
    requires
        pool_tokens@.len() >= 1,
        pool matches Some(p) ==> can_add_asset(p.assets@, msg.token) && (pool_tokens@[0].denom@
            == p.supply.denom@ ==> p.supply.amount + pool_tokens@[0].amount <= u128::MAX),
    ensures
        match pool {
            None => r == Err::<(InterchainLiquidityPool, u128), ContractError>(
                ContractError::PoolNotFound,
            ),
            Some(p) => if !lp_token_exists {
                r == Err::<(InterchainLiquidityPool, u128), ContractError>(
                    ContractError::LpTokenNotInitialized,
                )
            } else {
                match single_deposit_spec(p, msg.token, pool_tokens@[0]) {
                    Err(e) => r == Err::<(InterchainLiquidityPool, u128), ContractError>(e),
                    Ok(q) => r matches Ok((np, minted)) && minted == pool_tokens@[0].amount
                        && np.assets@ == add_asset_spec(p.assets@, msg.token)->0
                        && same_except_assets(np, q),
                }
            },
        },
{
    let p = match pool {
        Some(p) => p,
        None => {
            return Err(ContractError::PoolNotFound);
        },
    };
    if !lp_token_exists {
        return Err(ContractError::LpTokenNotInitialized);
    }
    let minted = pool_tokens[0].amount;
    match apply_single_deposit(p, &msg.token, &pool_tokens[0]) {
        Ok(np) => Ok((np, minted)),
        Err(e) => Err(e),
    }
}


/// The pool once a two-sided deposit completes: `shares` join the supply and the
/// deposits join the balances.
pub open spec fn complete_deposit_spec(
    pool: InterchainLiquidityPool,
    pool_id: Seq<char>,
    shares: int,
    deposits: Seq<Coin>,
) -> Result<Seq<PoolAsset>, ContractError> {
    if pool_id != pool.supply.denom@ {
        Err(ContractError::SupplyDenomMismatch)
    } else {
        match add_all_spec(pool.assets@, deposits) {
            None => Err(ContractError::AssetNotFound),
            Some(a) => Ok(a),
        }
    }
}

/// A two-sided deposit request arrived on the other chain: where the pool exists, the
/// order `order_id` opens, pending (see `new_deposit_order`), and the order counter
/// grows by one; `PoolNotFound` otherwise.
pub fn on_received_make_multi_deposit(
    pool_exists: bool,
    counter: u64,
    msg: &MsgMakeMultiAssetDepositRequest,
    order_id: String,
    height: u64,
) -> (r: Result<(MultiAssetDepositOrder, u64), ContractError>)
    requires
        msg.deposits@.len() >= 2,
        counter < u64::MAX,
    ensures
        !pool_exists ==> r == Err::<(MultiAssetDepositOrder, u64), ContractError>(
            ContractError::PoolNotFound,
        ),
        pool_exists ==> (r matches Ok((o, c)) && c == counter + 1 && o.id == order_id && o.chain_id
            == msg.chain_id && o.pool_id == msg.pool_id && o.source_maker == msg.deposits@[0].sender
            && o.destination_taker == msg.deposits@[1].sender && o.deposits@ == deposit_tokens(*msg)
            && o.status == OrderStatus::Pending && o.created_at == height),
{
    if !pool_exists {
        return Err(ContractError::PoolNotFound);
    }
    let order = new_deposit_order(msg, order_id, height);
    Ok((order, counter + 1))
}

/// A two-sided deposit is taken: the order completes, the shares issued for it (the
/// sum of `pool_tokens`) join the supply and both deposits join the balances. The
/// shares are minted to the order's maker.
pub fn complete_multi_deposit(
    pool: Option<InterchainLiquidityPool>,
    order: Option<MultiAssetDepositOrder>,
    pool_tokens: &Vec<Coin>,
    pool_id: &String,
    lp_token_exists: bool,
) -> (r: Result<(InterchainLiquidityPool, MultiAssetDepositOrder, u128), ContractError>)
    requires
        sum_amounts(pool_tokens@) <= u128::MAX,
        pool matches Some(p) ==> (order matches Some(o) ==> {
            &&& pool_id@ == p.supply.denom@ ==> p.supply.amount + sum_amounts(pool_tokens@)
                <= u128::MAX
            &&& can_add_all(p.assets@, o.deposits@)
        }),
    ensures
        match (pool, order) {
            (None, _) => r == Err::<(InterchainLiquidityPool, MultiAssetDepositOrder, u128), ContractError>(
                ContractError::PoolNotFound,
            ),
            (Some(_), None) => r == Err::<
                (InterchainLiquidityPool, MultiAssetDepositOrder, u128),
                ContractError,
            >(ContractError::ErrOrderNotFound),
            (Some(p), Some(o)) => if !lp_token_exists {
                r == Err::<(InterchainLiquidityPool, MultiAssetDepositOrder, u128), ContractError>(
                    ContractError::LpTokenNotInitialized,
                )
            } else {
                match complete_deposit_spec(p, pool_id@, sum_amounts(pool_tokens@), o.deposits@) {
                    Err(e) => r == Err::<
                        (InterchainLiquidityPool, MultiAssetDepositOrder, u128),
                        ContractError,
                    >(e),
                    Ok(a) => r matches Ok((np, no, minted)) && {
                        &&& minted == sum_amounts(pool_tokens@)
                        &&& np.assets@ == a
                        &&& same_except_assets(np, with_supply(p, p.supply.amount + minted))
                        &&& no == MultiAssetDepositOrder { status: OrderStatus::Complete, ..o }
                    },
                }
            },
        },
{
    let mut p = match pool {
        Some(p) => p,
        None => {
            return Err(ContractError::PoolNotFound);
        },
    };
    let mut o = match order {
        Some(o) => o,
        None => {
            return Err(ContractError::ErrOrderNotFound);
        },
    };
    o.status = OrderStatus::Complete;
    let new_shares = total_amount(pool_tokens);
    if !lp_token_exists {
        return Err(ContractError::LpTokenNotInitialized);
    }
    match p.add_supply(Coin { denom: pool_id.clone(), amount: new_shares }) {
        Ok(_) => {},
        Err(e) => {
            return Err(e);
        },
    }
    match add_assets(&mut p, &o.deposits) {
        Ok(_) => {},
        Err(e) => {
            return Err(e);
        },
    }
    Ok((p, o, new_shares))
}

/// The other chain records that a two-sided deposit was cancelled.
pub fn on_received_cancel_multi_deposit(pool_exists: bool, order: Option<MultiAssetDepositOrder>) -> (r: Result<
    MultiAssetDepositOrder,
    ContractError,
>)
    ensures
        !pool_exists ==> r == Err::<MultiAssetDepositOrder, ContractError>(ContractError::PoolNotFound),
        pool_exists ==> match order {
            None => r == Err::<MultiAssetDepositOrder, ContractError>(ContractError::ErrOrderNotFound),
            Some(o) => r == Ok::<MultiAssetDepositOrder, ContractError>(
                MultiAssetDepositOrder { status: OrderStatus::Cancelled, ..o },
            ),
        },
{
    if !pool_exists {
        return Err(ContractError::PoolNotFound);
    }
    match order {
        None => Err(ContractError::ErrOrderNotFound),
        Some(o) => {
            let mut o = o;
            o.status = OrderStatus::Cancelled;
            Ok(o)
        },
    }
}

/// The deposits of `deposits` whose denomination is `denom`, in order.
pub open spec fn deposits_of_denom(deposits: Seq<Coin>, denom: Seq<char>) -> Seq<Coin> {
    deposits.filter(|c: Coin| c.denom@ == denom)
}

/// The maker's chain learns that its cancellation was recorded: the order is cancelled
/// and the deposits it holds on this chain (those of the source asset's denomination)
/// are returned to the maker.
pub fn acknowledge_cancel_multi_deposit(
    pool: Option<InterchainLiquidityPool>,
    order: Option<MultiAssetDepositOrder>,
) -> (r: Result<(MultiAssetDepositOrder, Vec<Coin>), ContractError>)
    ensures
        match (pool, order) {
            (None, _) => r == Err::<(MultiAssetDepositOrder, Vec<Coin>), ContractError>(
                ContractError::PoolNotFound,
            ),
            (Some(_), None) => r == Err::<(MultiAssetDepositOrder, Vec<Coin>), ContractError>(
                ContractError::ErrOrderNotFound,
            ),
            (Some(p), Some(o)) => match first_with_side(p.assets@, PoolSide::SOURCE, 0) {
                None => r == Err::<(MultiAssetDepositOrder, Vec<Coin>), ContractError>(
                    ContractError::AssetNotFound,
                ),
                Some(i) => r matches Ok((no, refunds)) && no == (MultiAssetDepositOrder {
                    status: OrderStatus::Cancelled,
                    ..o
                }) && refunds@ == deposits_of_denom(o.deposits@, p.assets@[i].balance.denom@),
            },
        },
{
    let p = match pool {
        Some(p) => p,
        None => {
            return Err(ContractError::PoolNotFound);
        },
    };
    let mut o = match order {
        Some(o) => o,
        None => {
            return Err(ContractError::ErrOrderNotFound);
        },
    };
    o.status = OrderStatus::Cancelled;
    let token = match p.find_asset_by_side(PoolSide::SOURCE) {
        Ok(t) => t,
        Err(e) => {
            return Err(e);
        },
    };
    let mut refunds: Vec<Coin> = Vec::new();
    let mut i: usize = 0;
    while i < o.deposits.len()
        invariant
            i <= o.deposits@.len(),
            refunds@ == deposits_of_denom(o.deposits@.take(i as int), token.balance.denom@),
        decreases o.deposits.len() - i,
    {
        proof {
            assert(o.deposits@.take(i + 1).drop_last() =~= o.deposits@.take(i as int));
            reveal(Seq::filter);
        }
        if o.deposits[i].denom == token.balance.denom {
            refunds.push(o.deposits[i].duplicate());
        }
        i = i + 1;
    }
    proof {
        assert(o.deposits@.take(o.deposits@.len() as int) =~= o.deposits@);
    }
    Ok((o, refunds))
}

/// Index of the last of `tokens` below `upto` whose denomination is `denom`.
pub open spec fn last_coin_with_denom(tokens: Seq<Coin>, denom: Seq<char>, upto: int) -> Option<int>
    decreases upto,
{
    if upto <= 0 || upto > tokens.len() {
        None
    } else if tokens[upto - 1].denom@ == denom {
        Some(upto - 1)
    } else {
        last_coin_with_denom(tokens, denom, upto - 1)
    }
}

/// A withdrawal is recorded: each paid-out token leaves its balance and the burnt
/// shares leave the supply. Returned with the pool is the payout of this chain's
/// (source) asset, where there is one.
pub fn withdraw_from_pool(
    pool: Option<InterchainLiquidityPool>,
    out_tokens: &Vec<Coin>,
    pool_tokens: &Vec<Coin>,
) -> (r: Result<(InterchainLiquidityPool, Option<Coin>), ContractError>)
    requires
        pool matches Some(p) ==> {
            &&& can_subtract_all(p.assets@, out_tokens@)
            &&& can_subtract_supply_all(p.supply.denom@, p.supply.amount as int, pool_tokens@)
        },
    ensures
        match pool {
            None => r == Err::<(InterchainLiquidityPool, Option<Coin>), ContractError>(
                ContractError::PoolNotFound,
            ),
            Some(p) => match first_with_side(p.assets@, PoolSide::SOURCE, 0) {
                None => r == Err::<(InterchainLiquidityPool, Option<Coin>), ContractError>(
                    ContractError::AssetNotFound,
                ),
                Some(si) => match subtract_all_spec(p.assets@, out_tokens@) {
                    None => r == Err::<(InterchainLiquidityPool, Option<Coin>), ContractError>(
                        ContractError::AssetNotFound,
                    ),
                    Some(a) => match subtract_supply_all_spec(
                        p.supply.denom@,
                        p.supply.amount as int,
                        pool_tokens@,
                    ) {
                        None => r == Err::<(InterchainLiquidityPool, Option<Coin>), ContractError>(
                            ContractError::SupplyDenomMismatch,
                        ),
                        Some(s) => r matches Ok((np, payout)) && np.assets@ == a && same_except_assets(
                            np,
                            with_supply(p, s),
                        ) && payout == (match last_coin_with_denom(
                            out_tokens@,
                            p.assets@[si].balance.denom@,
                            out_tokens@.len() as int,
                        ) {
                            Some(j) => Some(out_tokens@[j]),
                            None => None,
                        }),
                    },
                },
            },
        },
{
    let mut p = match pool {
        Some(p) => p,
        None => {
            return Err(ContractError::PoolNotFound);
        },
    };
    let token = match p.find_asset_by_side(PoolSide::SOURCE) {
        Ok(t) => t,
        Err(e) => {
            return Err(e);
        },
    };
    let mut payout: Option<Coin> = None;
    let mut i: usize = 0;
    while i < out_tokens.len()
        invariant
            i <= out_tokens@.len(),
            payout == (match last_coin_with_denom(out_tokens@, token.balance.denom@, i as int) {
                Some(j) => Some(out_tokens@[j]),
                None => None::<Coin>,
            }),
        decreases out_tokens.len() - i,
    {
        if out_tokens[i].denom == token.balance.denom {
            payout = Some(out_tokens[i].duplicate());
        }
        i = i + 1;
    }
    match subtract_assets(&mut p, out_tokens) {
        Ok(_) => {},
        Err(e) => {
            return Err(e);
        },
    }
    match subtract_supplies(&mut p, pool_tokens) {
        Ok(_) => {},
        Err(e) => {
            return Err(e);
        },
    }
    Ok((p, payout))
}

/// A swap is recorded. A left swap adds the amount in and takes the computed amount out;
/// a right swap adds the computed amount in and takes the requested amount out. The two
/// tokens of the swap are returned for the volume log: what left and what came back.
pub fn apply_swap(pool: Option<InterchainLiquidityPool>, msg: &MsgSwapRequest, out_tokens: &Vec<Coin>) -> (r: Result<
    (InterchainLiquidityPool, Coin, Coin),
    ContractError,
>)
    requires
        out_tokens@.len() >= 1,
        pool matches Some(p) ==> match msg.swap_type {
            SwapMsgType::LEFT => can_add_asset(p.assets@, msg.token_in) && (add_asset_spec(
                p.assets@,
                msg.token_in,
            ) matches Some(a) ==> can_subtract_asset(a, out_tokens@[0])),
            SwapMsgType::RIGHT => can_add_asset(p.assets@, out_tokens@[0]) && (add_asset_spec(
                p.assets@,
                out_tokens@[0],
            ) matches Some(a) ==> can_subtract_asset(a, msg.token_out)),
        },
    ensures
        match pool {
            None => r == Err::<(InterchainLiquidityPool, Coin, Coin), ContractError>(
                ContractError::PoolNotFound,
            ),
            Some(p) => {
                let (added, taken, logged) = match msg.swap_type {
                    SwapMsgType::LEFT => (msg.token_in, out_tokens@[0], msg.token_in),
                    SwapMsgType::RIGHT => (out_tokens@[0], msg.token_out, msg.token_out),
                };
                match add_asset_spec(p.assets@, added) {
                    None => r == Err::<(InterchainLiquidityPool, Coin, Coin), ContractError>(
                        ContractError::AssetNotFound,
                    ),
                    Some(a) => match subtract_asset_spec(a, taken) {
                        None => r == Err::<(InterchainLiquidityPool, Coin, Coin), ContractError>(
                            ContractError::AssetNotFound,
                        ),
                        Some(b) => r matches Ok((np, t1, t2)) && np.assets@ == b
                            && same_except_assets(np, p) && t1 == logged && t2 == out_tokens@[0],
                    },
                }
            },
        },
{
    let mut p = match pool {
        Some(p) => p,
        None => {
            return Err(ContractError::PoolNotFound);
        },
    };
    let (added, taken, logged) = match msg.swap_type {
        SwapMsgType::LEFT => (msg.token_in.duplicate(), out_tokens[0].duplicate(), msg.token_in.duplicate()),
        SwapMsgType::RIGHT => (out_tokens[0].duplicate(), msg.token_out.duplicate(), msg.token_out.duplicate()),
    };
    match p.add_asset(added) {
        Ok(_) => {},
        Err(e) => {
            return Err(e);
        },
    }
    match p.subtract_asset(taken) {
        Ok(_) => {},
        Err(e) => {
            return Err(e);
        },
    }
    Ok((p, logged, out_tokens[0].duplicate()))
}

/// Tokens to send back to an account.
#[derive(Clone, Debug, PartialEq, Eq)]
pub struct Refund {
    pub recipient: String,
    pub coin: Coin,
}

/// A make-pool packet failed: the maker gets back the first asset it locked.
pub fn refund_make_pool(msg: &MsgMakePoolRequest) -> (r: Refund)
    requires
        msg.liquidity@.len() >= 2,
    ensures
        r == (Refund { recipient: msg.creator, coin: msg.liquidity@[0].balance }),
{
    Refund { recipient: msg.creator.clone(), coin: msg.liquidity[0].balance.duplicate() }
}

/// A take-pool packet failed: the taker gets back the second asset of the pool.
pub fn refund_take_pool(msg: &MsgTakePoolRequest, pool: Option<InterchainLiquidityPool>) -> (r: Result<
    Refund,
    ContractError,
>)
    requires
        pool matches Some(p) ==> p.assets@.len() >= 2,
    ensures
        match pool {
            None => r == Err::<Refund, ContractError>(ContractError::PoolNotFound),
            Some(p) => r == Ok::<Refund, ContractError>(
                Refund { recipient: msg.creator, coin: p.assets@[1].balance },
            ),
        },
{
    match pool {
        None => Err(ContractError::PoolNotFound),
        Some(p) => Ok(Refund { recipient: msg.creator.clone(), coin: p.assets[1].balance.duplicate() }),
    }
}

/// A one-sided deposit failed: the sender gets its token back.
pub fn refund_single_deposit(msg: &MsgSingleAssetDepositRequest) -> (r: Refund)
    ensures
        r == (Refund { recipient: msg.sender, coin: msg.token }),
{
    Refund { recipient: msg.sender.clone(), coin: msg.token.duplicate() }
}

/// A make-deposit packet failed: the maker gets its deposit back and the order counter
/// steps back.
pub fn refund_make_multi_deposit(msg: &MsgMakeMultiAssetDepositRequest, counter: u64) -> (r: (
    Refund,
    u64,
))
    requires
        msg.deposits@.len() >= 2,
        counter >= 1,
    ensures
        r.0 == (Refund { recipient: msg.deposits@[0].sender, coin: msg.deposits@[0].balance }),
        r.1 == counter - 1,
{
    (
        Refund {
            recipient: msg.deposits[0].sender.clone(),
            coin: msg.deposits[0].balance.duplicate(),
        },
        counter - 1,
    )
}

/// A take-deposit packet failed: the taker gets back its side of the order.
pub fn refund_take_multi_deposit(
    msg: &MsgTakeMultiAssetDepositRequest,
    order: Option<MultiAssetDepositOrder>,
) -> (r: Result<Refund, ContractError>)
    requires
        order matches Some(o) ==> o.deposits@.len() >= 2,
    ensures
        match order {
            None => r == Err::<Refund, ContractError>(ContractError::ErrOrderNotFound),
            Some(o) => r == Ok::<Refund, ContractError>(
                Refund { recipient: msg.sender, coin: o.deposits@[1] },
            ),
        },
{
    match order {
        None => Err(ContractError::ErrOrderNotFound),
        Some(o) => Ok(Refund { recipient: msg.sender.clone(), coin: o.deposits[1].duplicate() }),
    }
}

/// A withdrawal failed: the receiver gets its share tokens back.
pub fn refund_multi_withdraw(msg: &MsgMultiAssetWithdrawRequest) -> (r: Refund)
    ensures
        r == (Refund { recipient: msg.receiver, coin: msg.pool_token }),
{
    Refund { recipient: msg.receiver.clone(), coin: msg.pool_token.duplicate() }
}

/// A swap failed: the sender gets back what it paid in, the amount in of a left swap
/// or the computed amount in of a right swap.
pub fn refund_swap(msg: &MsgSwapRequest, out_tokens: &Vec<Coin>) -> (r: Refund)
    requires
        msg.swap_type == SwapMsgType::RIGHT ==> out_tokens@.len() >= 1,
    ensures
        r == (Refund {
            recipient: msg.sender,
            coin: match msg.swap_type {
                SwapMsgType::LEFT => msg.token_in,
                SwapMsgType::RIGHT => out_tokens@[0],
            },
        }),
{
    match msg.swap_type {
        SwapMsgType::LEFT => Refund { recipient: msg.sender.clone(), coin: msg.token_in.duplicate() },
        SwapMsgType::RIGHT => Refund { recipient: msg.sender.clone(), coin: out_tokens[0].duplicate() },
    }
}

} // verus!
