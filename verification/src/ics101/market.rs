//! Interchain liquidity pools and the market maker that prices deposits, withdrawals
//! and swaps against them.
use vstd::prelude::*;

use crate::coin::Coin;
use crate::decimal::{
    div_floor, frac, mul_floor, pow_spec, Decimal, Decimal256, MathError, DECIMAL_FRACTIONAL,
};
use crate::ics101::error::ContractError;
use crate::ics101::math::{
    calc_minted_shares_given_single_asset_in, distance_to_one, lemma_solve_heavier_fixed_side,
    minted_shares_defined, minted_shares_spec, solve_constant_function_invariant, solve_spec,
};
use crate::ics101::approx_pow::{calculate_pow_spec, DEFAULT_PRECISION_ATOMICS};
use crate::ics101::types::WeightedAsset;
use crate::ics101::utils::{
    adjust_precision, adjust_precision_spec, lemma_adjust_precision_monotone,
    lemma_adjust_precision_nonneg,
};

verus! {

/// Fee rates are given in basis points.
pub const FEE_PRECISION: u16 = 10000;

/// Decimals in which the swap invariant is solved.
pub const FIXED_PRECISION: u8 = 12;

/// Which chain an asset of a pool lives on.
#[derive(Clone, Copy, Debug, PartialEq, Eq, Structural)]
pub enum PoolSide {
    SOURCE,
    DESTINATION,
}

#[derive(Clone, Copy, Debug, PartialEq, Eq, Structural)]
pub enum PoolStatus {
    Initialized,
    Active,
    Cancelled,
}

/// One asset of a pool: its balance, weight (in percent) and decimals.
#[derive(Clone, Debug, PartialEq, Eq)]
pub struct PoolAsset {
    pub side: PoolSide,
    pub balance: Coin,
    pub weight: u32,
    pub decimal: u32,
}

impl PoolAsset {
    /// A field-by-field copy.
    pub fn duplicate(&self) -> (r: PoolAsset)
        ensures
            r == *self,
    {
        PoolAsset {
            side: self.side,
            balance: self.balance.duplicate(),
            weight: self.weight,
            decimal: self.decimal,
        }
    }
}

/// A copy of each asset, in order.
pub fn duplicate_assets(assets: &Vec<PoolAsset>) -> (r: Vec<PoolAsset>)
    ensures
        r@ == assets@,
{
    let mut out: Vec<PoolAsset> = Vec::new();
    let mut i: usize = 0;
    while i < assets.len()
        invariant
            i <= assets.len(),
            out@ == assets@.subrange(0, i as int),
        decreases assets.len() - i,
    {
        out.push(assets[i].duplicate());
        proof {
            assert(out@ =~= assets@.subrange(0, i + 1));
        }
        i = i + 1;
    }
    proof {
        assert(out@ =~= assets@);
    }
    out
}

/// Index of the first asset from `from` on whose denomination is `denom`.
pub open spec fn first_with_denom(assets: Seq<PoolAsset>, denom: Seq<char>, from: int) -> Option<
    int,
>
    decreases assets.len() - from,
{
    if from < 0 || from >= assets.len() {
        None
    } else if assets[from].balance.denom@ == denom {
        Some(from)
    } else {
        first_with_denom(assets, denom, from + 1)
    }
}

/// Index of the last asset below `upto` whose denomination is `denom`.
pub open spec fn last_with_denom(assets: Seq<PoolAsset>, denom: Seq<char>, upto: int) -> Option<
    int,
>
    decreases upto,
{
    if upto <= 0 || upto > assets.len() {
        None
    } else if assets[upto - 1].balance.denom@ == denom {
        Some(upto - 1)
    } else {
        last_with_denom(assets, denom, upto - 1)
    }
}

/// Index of the first asset from `from` on that lives on `side`.
pub open spec fn first_with_side(assets: Seq<PoolAsset>, side: PoolSide, from: int) -> Option<int>
    decreases assets.len() - from,
{
    if from < 0 || from >= assets.len() {
        None
    } else if assets[from].side == side {
        Some(from)
    } else {
        first_with_side(assets, side, from + 1)
    }
}

pub proof fn lemma_first_with_denom_found(assets: Seq<PoolAsset>, denom: Seq<char>, from: int)
    requires
        first_with_denom(assets, denom, from) is Some,
    ensures
        ({
            let i = first_with_denom(assets, denom, from)->0;
            &&& from <= i < assets.len()
            &&& assets[i].balance.denom@ == denom
            &&& forall|j: int| from <= j < i ==> assets[j].balance.denom@ != denom
        }),
    decreases assets.len() - from,
{
    if assets[from].balance.denom@ != denom {
        lemma_first_with_denom_found(assets, denom, from + 1);
    }
}

pub proof fn lemma_first_with_denom_none(assets: Seq<PoolAsset>, denom: Seq<char>, from: int)
    requires
        0 <= from,
        first_with_denom(assets, denom, from) is None,
    ensures
        forall|j: int| from <= j < assets.len() ==> assets[j].balance.denom@ != denom,
    decreases assets.len() - from,
{
    if from < assets.len() {
        lemma_first_with_denom_none(assets, denom, from + 1);
    }
}

pub proof fn lemma_last_with_denom_found(assets: Seq<PoolAsset>, denom: Seq<char>, upto: int)
    requires
        last_with_denom(assets, denom, upto) is Some,
    ensures
        ({
            let i = last_with_denom(assets, denom, upto)->0;
            &&& 0 <= i < upto <= assets.len()
            &&& assets[i].balance.denom@ == denom
        }),
    decreases upto,
{
    if assets[upto - 1].balance.denom@ != denom {
        lemma_last_with_denom_found(assets, denom, upto - 1);
    }
}

/// `asset` with its balance set to `amount`.
pub open spec fn with_amount(asset: PoolAsset, amount: int) -> PoolAsset {
    PoolAsset { balance: Coin { amount: amount as u128, ..asset.balance }, ..asset }
}

/// The assets after `token` is added to the last asset of its denomination; `None`
/// where the pool has no such asset.
pub open spec fn add_asset_spec(assets: Seq<PoolAsset>, token: Coin) -> Option<Seq<PoolAsset>> {
    match last_with_denom(assets, token.denom@, assets.len() as int) {
        None => None,
        Some(i) => Some(assets.update(i, with_amount(assets[i], assets[i].balance.amount + token.amount))),
    }
}

/// Adding `token` does not overflow the balance it is added to.
pub open spec fn can_add_asset(assets: Seq<PoolAsset>, token: Coin) -> bool {
    match last_with_denom(assets, token.denom@, assets.len() as int) {
        None => true,
        Some(i) => assets[i].balance.amount + token.amount <= u128::MAX,
    }
}

/// The assets after `token` is taken from the last asset of its denomination; `None`
/// where the pool has no such asset.
pub open spec fn subtract_asset_spec(assets: Seq<PoolAsset>, token: Coin) -> Option<Seq<PoolAsset>> {
    match last_with_denom(assets, token.denom@, assets.len() as int) {
        None => None,
        Some(i) => Some(assets.update(i, with_amount(assets[i], assets[i].balance.amount - token.amount))),
    }
}

/// Taking `token` does not go below zero.
pub open spec fn can_subtract_asset(assets: Seq<PoolAsset>, token: Coin) -> bool {
    match last_with_denom(assets, token.denom@, assets.len() as int) {
        None => true,
        Some(i) => token.amount <= assets[i].balance.amount,
    }
}

/// `a` and `b` agree on everything but their assets.
pub open spec fn same_except_assets(a: InterchainLiquidityPool, b: InterchainLiquidityPool) -> bool {
    a == InterchainLiquidityPool { assets: a.assets, ..b }
}

/// A pool shared by two chains: its assets, share token supply and fee.
#[derive(Clone, Debug, PartialEq, Eq)]
pub struct InterchainLiquidityPool {
    pub assets: Vec<PoolAsset>,
    pub counter_party_channel: String,
    pub counter_party_port: String,
    pub destination_creator: String,
    pub destination_chain_id: String,
    pub id: String,
    pub source_chain_id: String,
    pub source_creator: String,
    pub status: PoolStatus,
    pub supply: Coin,
    pub swap_fee: u32,
    pub pool_price: u64,
}

/// `a` and `b` hold the same pool.
pub open spec fn same_pool(a: InterchainLiquidityPool, b: InterchainLiquidityPool) -> bool {
    &&& a.assets@ == b.assets@
    &&& a.counter_party_channel == b.counter_party_channel
    &&& a.counter_party_port == b.counter_party_port
    &&& a.destination_creator == b.destination_creator
    &&& a.destination_chain_id == b.destination_chain_id
    &&& a.id == b.id
    &&& a.source_chain_id == b.source_chain_id
    &&& a.source_creator == b.source_creator
    &&& a.status == b.status
    &&& a.supply == b.supply
    &&& a.swap_fee == b.swap_fee
    &&& a.pool_price == b.pool_price
}

impl InterchainLiquidityPool {
    /// A field-by-field copy.
    pub fn duplicate(&self) -> (r: InterchainLiquidityPool)
        ensures
            same_pool(r, *self),
    {
        InterchainLiquidityPool {
            assets: duplicate_assets(&self.assets),
            counter_party_channel: self.counter_party_channel.clone(),
            counter_party_port: self.counter_party_port.clone(),
            destination_creator: self.destination_creator.clone(),
            destination_chain_id: self.destination_chain_id.clone(),
            id: self.id.clone(),
            source_chain_id: self.source_chain_id.clone(),
            source_creator: self.source_creator.clone(),
            status: self.status,
            supply: self.supply.duplicate(),
            swap_fee: self.swap_fee,
            pool_price: self.pool_price,
        }
    }

    /// The first asset of denomination `denom`.
    pub fn find_asset_by_denom(&self, denom: &str) -> (r: Result<PoolAsset, ContractError>)
        ensures
            match first_with_denom(self.assets@, denom@, 0) {
                Some(i) => r == Ok::<PoolAsset, ContractError>(self.assets@[i]),
                None => r == Err::<PoolAsset, ContractError>(ContractError::AssetNotFound),
            },
    {
        let wanted: String = denom.to_owned();
        let mut k: usize = 0;
        while k < self.assets.len()
            invariant
                k <= self.assets.len(),
                wanted@ == denom@,
                first_with_denom(self.assets@, denom@, 0) == first_with_denom(
                    self.assets@,
                    denom@,
                    k as int,
                ),
            decreases self.assets.len() - k,
        {
            if self.assets[k].balance.denom == wanted {
                return Ok(self.assets[k].duplicate());
            }
            k = k + 1;
        }
        Err(ContractError::AssetNotFound)
    }

    /// The first asset that lives on `side`.
    pub fn find_asset_by_side(&self, side: PoolSide) -> (r: Result<PoolAsset, ContractError>)
        ensures
            match first_with_side(self.assets@, side, 0) {
                Some(i) => r == Ok::<PoolAsset, ContractError>(self.assets@[i]),
                None => r == Err::<PoolAsset, ContractError>(ContractError::AssetNotFound),
            },
    {
        let mut k: usize = 0;
        while k < self.assets.len()
            invariant
                k <= self.assets.len(),
                first_with_side(self.assets@, side, 0) == first_with_side(
                    self.assets@,
                    side,
                    k as int,
                ),
            decreases self.assets.len() - k,
        {
            if self.assets[k].side == side {
                return Ok(self.assets[k].duplicate());
            }
            k = k + 1;
        }
        Err(ContractError::AssetNotFound)
    }

    /// Index of the last asset of `denom`, as the balance updates pick it.
    fn last_index_of(&self, denom: &String) -> (r: Option<usize>)
        ensures
            r matches Some(k) ==> k < self.assets@.len() && last_with_denom(
                self.assets@,
                denom@,
                self.assets@.len() as int,
            ) == Some(k as int),
            r is None ==> last_with_denom(self.assets@, denom@, self.assets@.len() as int) is None,
    {
        proof {
            if last_with_denom(self.assets@, denom@, self.assets@.len() as int) is Some {
                lemma_last_with_denom_found(self.assets@, denom@, self.assets@.len() as int);
            }
        }
        let mut k: usize = self.assets.len();
        while k > 0
            invariant
                k <= self.assets.len(),
                last_with_denom(self.assets@, denom@, self.assets@.len() as int)
                    == last_with_denom(self.assets@, denom@, k as int),
            decreases k,
        {
            if self.assets[k - 1].balance.denom == *denom {
                return Some(k - 1);
            }
            k = k - 1;
        }
        None
    }

    /// Adds `token` to the balance of the (last) asset of its denomination.
    pub fn add_asset(&mut self, token: Coin) -> (r: Result<Coin, ContractError>)
        requires
            can_add_asset(old(self).assets@, token),
        ensures
            match add_asset_spec(old(self).assets@, token) {
                Some(a) => r == Ok::<Coin, ContractError>(token) && final(self).assets@ == a
                    && same_except_assets(*final(self), *old(self)),
                None => r == Err::<Coin, ContractError>(ContractError::AssetNotFound) && *final(self)
                    == *old(self),
            },
    {
        match self.last_index_of(&token.denom) {
            None => Err(ContractError::AssetNotFound),
            Some(i) => {
                let mut asset = self.assets[i].duplicate();
                asset.balance.amount = asset.balance.amount + token.amount;
                self.assets.set(i, asset);
                Ok(token)
            },
        }
    }

    /// Takes `token` from the balance of the (last) asset of its denomination.
    pub fn subtract_asset(&mut self, token: Coin) -> (r: Result<Coin, ContractError>)
        requires
            can_subtract_asset(old(self).assets@, token),
        ensures
            match subtract_asset_spec(old(self).assets@, token) {
                Some(a) => r == Ok::<Coin, ContractError>(token) && final(self).assets@ == a
                    && same_except_assets(*final(self), *old(self)),
                None => r == Err::<Coin, ContractError>(ContractError::AssetNotFound) && *final(self)
                    == *old(self),
            },
    {
        match self.last_index_of(&token.denom) {
            None => Err(ContractError::AssetNotFound),
            Some(i) => {
                let mut asset = self.assets[i].duplicate();
                asset.balance.amount = asset.balance.amount - token.amount;
                self.assets.set(i, asset);
                Ok(token)
            },
        }
    }

    /// Adds `token` to the share supply, where it is of the share denomination.
    pub fn add_supply(&mut self, token: Coin) -> (r: Result<Coin, ContractError>)
        requires
            token.denom@ == old(self).supply.denom@ ==> old(self).supply.amount + token.amount
                <= u128::MAX,
        ensures
            token.denom@ == old(self).supply.denom@ ==> r == Ok::<Coin, ContractError>(token)
                && *final(self) == (InterchainLiquidityPool {
                supply: Coin {
                    amount: (old(self).supply.amount + token.amount) as u128,
                    ..old(self).supply
                },
                ..*old(self)
            }),
            token.denom@ != old(self).supply.denom@ ==> r == Err::<Coin, ContractError>(
                ContractError::SupplyDenomMismatch,
            ) && *final(self) == *old(self),
    {
        if self.supply.denom == token.denom {
            self.supply.amount = self.supply.amount + token.amount;
            Ok(token)
        } else {
            Err(ContractError::SupplyDenomMismatch)
        }
    }

    /// Takes `token` from the share supply, where it is of the share denomination.
    pub fn subtract_supply(&mut self, token: Coin) -> (r: Result<Coin, ContractError>)
        requires
            token.denom@ == old(self).supply.denom@ ==> token.amount <= old(self).supply.amount,
        ensures
            token.denom@ == old(self).supply.denom@ ==> r == Ok::<Coin, ContractError>(token)
                && *final(self) == (InterchainLiquidityPool {
                supply: Coin {
                    amount: (old(self).supply.amount - token.amount) as u128,
                    ..old(self).supply
                },
                ..*old(self)
            }),
            token.denom@ != old(self).supply.denom@ ==> r == Err::<Coin, ContractError>(
                ContractError::SupplyDenomMismatch,
            ) && *final(self) == *old(self),
    {
        if self.supply.denom == token.denom {
            self.supply.amount = self.supply.amount - token.amount;
            Ok(token)
        } else {
            Err(ContractError::SupplyDenomMismatch)
        }
    }
}


/// The shares `redeem` is of `total`, as a decimal: `redeem * 10^18 / total`.
pub open spec fn share_out_ratio(redeem: int, total: int) -> int {
    div_floor(redeem, total)
}

/// What a withdrawal pays out of a balance: `balance * share`, rounded down.
pub open spec fn asset_out(balance: int, share: int) -> int {
    mul_floor(balance, share)
}

/// No asset before `n` pays out more than its balance.
pub open spec fn withdraw_ok_upto(assets: Seq<PoolAsset>, share: int, n: int) -> bool {
    forall|j: int|
        0 <= j < n ==> asset_out(#[trigger] assets[j].balance.amount as int, share)
            <= assets[j].balance.amount
}


/// An asset weight, given in percent, as a decimal.
pub open spec fn weight_dec(weight: int) -> int {
    div_floor(weight, 100)
}

/// A fee rate, given in basis points, as a decimal.
pub open spec fn fee_dec(fee_rate: int) -> int {
    div_floor(fee_rate, 10000)
}

/// Whole units of a decimal, rounded up.
pub open spec fn ceil_units(atomics: int) -> int {
    if atomics <= 0 {
        0
    } else {
        1 + (atomics - 1) / frac()
    }
}

/// The shares minted for a one-sided deposit of `token`.
pub open spec fn deposit_single_spec(mm: InterchainMarketMaker, token: Coin) -> Result<
    int,
    ContractError,
> {
    match first_with_denom(mm.pool.assets@, token.denom@, 0) {
        None => Err(ContractError::AssetNotFound),
        Some(i) => {
            let asset = mm.pool.assets@[i];
            if mm.pool.status != PoolStatus::Active {
                Err(ContractError::NotReadyForSwap)
            } else {
                match minted_shares_spec(
                    token.amount as int,
                    asset.decimal as int,
                    token.amount as int,
                    weight_dec(asset.weight as int),
                    mm.pool.supply.amount as int,
                    fee_dec(mm.fee_rate as int),
                ) {
                    Err(e) => Err(ContractError::Math(e)),
                    Ok(shares) => Ok(shares.0),
                }
            }
        },
    }
}

/// The inputs of a one-sided deposit that do not make its arithmetic panic.
pub open spec fn deposit_single_defined(mm: InterchainMarketMaker, token: Coin) -> bool {
    match first_with_denom(mm.pool.assets@, token.denom@, 0) {
        None => true,
        Some(i) => mm.pool.status == PoolStatus::Active ==> minted_shares_defined(
            token.amount as int,
            mm.pool.assets@[i].decimal as int,
            token.amount as int,
            weight_dec(mm.pool.assets@[i].weight as int),
            fee_dec(mm.fee_rate as int),
        ),
    }
}

/// The sum of the first `n` asset balances, each written with 18 decimals; `None`
/// where one of them overflows.
pub open spec fn scaled_total(assets: Seq<PoolAsset>, n: int) -> Option<int>
    decreases n,
{
    if n <= 0 {
        Some(0)
    } else {
        match scaled_total(assets, n - 1) {
            None => None,
            Some(t) => match adjust_precision_spec(
                assets[n - 1].balance.amount as int,
                assets[n - 1].decimal as int,
                18,
            ) {
                None => None,
                Some(v) => Some(t + v),
            },
        }
    }
}

/// Summing the scaled balances does not panic: each decimal count can be scaled, and
/// each partial sum fits in 128 bits.
pub open spec fn scaled_total_defined(assets: Seq<PoolAsset>) -> bool {
    forall|k: int|
        0 <= k < assets.len() && #[trigger] scaled_total(assets, k) is Some ==> {
            &&& assets[k].decimal <= 56
            &&& (adjust_precision_spec(
                assets[k].balance.amount as int,
                assets[k].decimal as int,
                18,
            ) matches Some(v) ==> scaled_total(assets, k)->0 + v <= u128::MAX)
        }
}

/// The issue decimal (atomics) of a two-sided deposit of `token`. A pool that is not
/// funded yet issues the sum of its scaled balances times the asset's weight; a funded
/// pool issues its supply times the deposit's share of the balance times the weight.
pub open spec fn issue_spec(pool: InterchainLiquidityPool, token: Coin) -> Result<int, ContractError> {
    match first_with_denom(pool.assets@, token.denom@, 0) {
        None => Err(ContractError::AssetNotFound),
        Some(i) => {
            let asset = pool.assets@[i];
            if pool.status == PoolStatus::Initialized && pool.supply.amount == 0 {
                match scaled_total(pool.assets@, pool.assets@.len() as int) {
                    None => Err(ContractError::Math(MathError::Overflow)),
                    Some(t) => if t * asset.weight > u128::MAX {
                        Err(ContractError::Math(MathError::Overflow))
                    } else {
                        Ok(div_floor(t * asset.weight, 100))
                    },
                }
            } else {
                let ratio = div_floor(token.amount as int, asset.balance.amount as int);
                let base = div_floor(pool.supply.amount as int, 100);
                let scaled = mul_floor(base, ratio);
                if scaled > u128::MAX {
                    Err(ContractError::Math(MathError::Overflow))
                } else {
                    let weighted = mul_floor(scaled, asset.weight * frac());
                    if weighted > u128::MAX {
                        Err(ContractError::Math(MathError::Overflow))
                    } else {
                        Ok(weighted)
                    }
                }
            }
        },
    }
}

/// The inputs of a two-sided deposit of `token` that do not make its arithmetic panic.
pub open spec fn issue_defined(pool: InterchainLiquidityPool, token: Coin) -> bool {
    match first_with_denom(pool.assets@, token.denom@, 0) {
        None => true,
        Some(i) => {
            let asset = pool.assets@[i];
            if pool.status == PoolStatus::Initialized && pool.supply.amount == 0 {
                &&& scaled_total_defined(pool.assets@)
                &&& (scaled_total(pool.assets@, pool.assets@.len() as int) matches Some(t) ==> (t
                    * asset.weight <= u128::MAX ==> div_floor(t * asset.weight, 100) <= u128::MAX))
            } else {
                &&& asset.balance.amount != 0
                &&& div_floor(token.amount as int, asset.balance.amount as int) <= u128::MAX
                &&& div_floor(pool.supply.amount as int, 100) <= u128::MAX
            }
        },
    }
}

/// The share coins issued for the first `n` deposited tokens, or the first error.
pub open spec fn deposit_multi_spec(pool: InterchainLiquidityPool, tokens: Seq<Coin>, n: int) -> Result<
    Seq<Coin>,
    ContractError,
>
    decreases n,
{
    if n <= 0 {
        Ok(Seq::empty())
    } else {
        match deposit_multi_spec(pool, tokens, n - 1) {
            Err(e) => Err(e),
            Ok(s) => match issue_spec(pool, tokens[n - 1]) {
                Err(e) => Err(e),
                Ok(a) => Ok(s.push(Coin { denom: pool.supply.denom, amount: ceil_units(a) as u128 })),
            },
        }
    }
}


/// `amount` less its fee, as decimal atomics: `amount - amount * fee_rate / 10000`.
pub open spec fn minus_fees_spec(amount: int, fee_rate: int) -> int {
    amount * frac() - mul_floor(amount * frac(), fee_dec(fee_rate))
}

/// A swap keeps, of the amount paid in, the amount less its fee at `fee_rate` basis
/// points, rounded down: `floor(amount * (10000 - fee_rate) / 10000)`.
pub proof fn lemma_amount_less_fee(amount: int, fee_rate: int)
    requires
        0 <= amount,
        0 <= fee_rate <= 10000,
    ensures
        minus_fees_spec(amount, fee_rate) / frac() == (amount * (10000 - fee_rate)) / 10000,
        0 <= minus_fees_spec(amount, fee_rate) / frac() <= amount,
{
    let f = fee_dec(fee_rate);
    assert(f == fee_rate * 100_000_000_000_000);
    let m = minus_fees_spec(amount, fee_rate);
    assert(m == amount * (10000 - fee_rate) * 100_000_000_000_000) by (nonlinear_arith)
        requires
            m == amount * frac() - ((amount * frac()) * f) / frac(),
            f == fee_rate * 100_000_000_000_000,
    {
        assert((amount * frac()) * f == (amount * fee_rate * 100_000_000_000_000) * frac());
        vstd::arithmetic::div_mod::lemma_div_multiples_vanish(
            amount * fee_rate * 100_000_000_000_000,
            frac(),
        );
    }
    assert(m / frac() == (amount * (10000 - fee_rate)) / 10000 && 0 <= m / frac() <= amount) by (nonlinear_arith)
        requires
            m == amount * (10000 - fee_rate) * 100_000_000_000_000,
            0 <= amount,
            0 <= fee_rate <= 10000,
    {
        let x = amount * (10000 - fee_rate);
        vstd::arithmetic::div_mod::lemma_div_denominator(x * 100_000_000_000_000, 100_000_000_000_000, 10000);
        vstd::arithmetic::div_mod::lemma_div_multiples_vanish(x, 100_000_000_000_000);
        assert(x <= amount * 10000);
        assert(x >= 0);
    }
}

/// The arithmetic of a trade through the invariant does not panic: the decimals of
/// the side whose change is known can be rewritten to 12 places, and so can those of
/// the other side where the computation reaches it.
pub open spec fn trade_defined(
    fixed_before: int,
    fixed_after: int,
    fixed_decimal: int,
    unknown_decimal: int,
) -> bool {
    &&& fixed_decimal <= 50
    &&& (adjust_precision_spec(fixed_before, fixed_decimal, 12) is Some && adjust_precision_spec(
        fixed_after,
        fixed_decimal,
        12,
    ) is Some) ==> unknown_decimal <= 50
}

/// The change of the unknown side of a trade: the three balances are written with 12
/// decimals, the invariant is solved on them, and the result is written back with
/// the unknown side's decimals.
pub open spec fn trade_spec(
    fixed_before: int,
    fixed_after: int,
    fixed_decimal: int,
    fixed_weight: int,
    unknown_before: int,
    unknown_decimal: int,
    unknown_weight: int,
) -> Result<int, ContractError> {
    match adjust_precision_spec(fixed_before, fixed_decimal, 12) {
        None => Err(ContractError::Math(MathError::Overflow)),
        Some(fb) => match adjust_precision_spec(fixed_after, fixed_decimal, 12) {
            None => Err(ContractError::Math(MathError::Overflow)),
            Some(fa) => match adjust_precision_spec(unknown_before, unknown_decimal, 12) {
                None => Err(ContractError::Math(MathError::Overflow)),
                Some(ub) => if fb * frac() > u128::MAX || fa * frac() > u128::MAX || ub * frac()
                    > u128::MAX {
                    Err(ContractError::Math(MathError::Overflow))
                } else {
                    match solve_spec(
                        fb * frac(),
                        fa * frac(),
                        weight_dec(fixed_weight),
                        ub * frac(),
                        weight_dec(unknown_weight),
                    ) {
                        Err(e) => Err(ContractError::Math(e)),
                        Ok(v) => match adjust_precision_spec(v / frac(), 12, unknown_decimal) {
                            None => Err(ContractError::Math(MathError::Overflow)),
                            Some(x) => Ok(x),
                        },
                    }
                },
            },
        },
    }
}

/// What a swap of `amount_in` for `denom_out` returns: the amount in, less fees,
/// is added to its side and the invariant gives the amount out.
pub open spec fn swap_spec(mm: InterchainMarketMaker, amount_in: Coin, denom_out: Seq<char>) -> Result<
    int,
    ContractError,
> {
    match first_with_denom(mm.pool.assets@, amount_in.denom@, 0) {
        None => Err(ContractError::AssetNotFound),
        Some(i) => match first_with_denom(mm.pool.assets@, denom_out, 0) {
            None => Err(ContractError::AssetNotFound),
            Some(o) => {
                let ain = mm.pool.assets@[i];
                let aout = mm.pool.assets@[o];
                let post = ain.balance.amount + minus_fees_spec(
                    amount_in.amount as int,
                    mm.fee_rate as int,
                ) / frac();
                trade_spec(
                    ain.balance.amount as int,
                    post,
                    ain.decimal as int,
                    ain.weight as int,
                    aout.balance.amount as int,
                    aout.decimal as int,
                    aout.weight as int,
                )
            },
        },
    }
}

/// What a pool of equal weights pays out of a side of `balance_out` when the in side
/// grows from `before` to `after`: `balance_out * (1 - before / after)`, worked in 12
/// decimals as a swap is and given back in the out side's decimals.
pub open spec fn equal_weight_out(
    before: int,
    after: int,
    in_decimal: int,
    balance_out: int,
    out_decimal: int,
) -> Option<int> {
    match (
        adjust_precision_spec(before, in_decimal, 12),
        adjust_precision_spec(after, in_decimal, 12),
        adjust_precision_spec(balance_out, out_decimal, 12),
    ) {
        (Some(fb), Some(fa), Some(ub)) => adjust_precision_spec(
            mul_floor(ub * frac(), frac() - div_floor(fb * frac(), fa * frac())) / frac(),
            12,
            out_decimal,
        ),
        _ => None,
    }
}

/// What the weighted invariant pays out of a side of `balance_out` when the in side grows
/// from `before` to `after` and the asset paid in weighs `k` times the asset paid out:
/// `balance_out * (1 - (before / after) ^ k)`, the power taken by squaring on 18-decimal
/// fixed point, worked in 12 decimals as a swap is and given back in the out side's
/// decimals.
pub open spec fn whole_power_out(
    before: int,
    after: int,
    in_decimal: int,
    balance_out: int,
    out_decimal: int,
    k: nat,
) -> Option<int> {
    match (
        adjust_precision_spec(before, in_decimal, 12),
        adjust_precision_spec(after, in_decimal, 12),
        adjust_precision_spec(balance_out, out_decimal, 12),
    ) {
        (Some(fb), Some(fa), Some(ub)) => match pow_spec(div_floor(fb * frac(), fa * frac()), k) {
            Some(p) => {
                let a = mul_floor(ub * frac(), distance_to_one(p));
                if a > u128::MAX {
                    None
                } else {
                    adjust_precision_spec(a / frac(), 12, out_decimal)
                }
            },
            None => None,
        },
        _ => None,
    }
}

/// A trade through the invariant where the side of known change weighs a whole `k` times
/// the other raises the ratio of its balances to the power `k`.
proof fn lemma_trade_whole_ratio(
    fixed_before: int,
    fixed_after: int,
    fixed_decimal: int,
    fixed_weight: int,
    unknown_before: int,
    unknown_decimal: int,
    unknown_weight: int,
    k: nat,
)
    requires
        0 <= fixed_before <= u128::MAX,
        0 <= fixed_after <= u128::MAX,
        0 < unknown_weight,
        fixed_weight == k * unknown_weight,
        fixed_weight <= u32::MAX,
        k >= 1,
    ensures
        trade_spec(
            fixed_before,
            fixed_after,
            fixed_decimal,
            fixed_weight,
            unknown_before,
            unknown_decimal,
            unknown_weight,
        ) matches Ok(v) ==> whole_power_out(
            fixed_before,
            fixed_after,
            fixed_decimal,
            unknown_before,
            unknown_decimal,
            k,
        ) == Some(v),
{
    lemma_adjust_precision_nonneg(fixed_before, fixed_decimal, 12);
    lemma_adjust_precision_nonneg(fixed_after, fixed_decimal, 12);
    if let (Some(fb), Some(fa), Some(ub)) = (
        adjust_precision_spec(fixed_before, fixed_decimal, 12),
        adjust_precision_spec(fixed_after, fixed_decimal, 12),
        adjust_precision_spec(unknown_before, unknown_decimal, 12),
    ) {
        let wf = weight_dec(fixed_weight);
        let wu = weight_dec(unknown_weight);
        assert(wf == fixed_weight * 10_000_000_000_000_000);
        assert(wu == unknown_weight * 10_000_000_000_000_000);
        assert(wf * frac() == (k * frac()) * wu) by (nonlinear_arith)
            requires
                wf == fixed_weight * 10_000_000_000_000_000,
                wu == unknown_weight * 10_000_000_000_000_000,
                fixed_weight == k * unknown_weight,
        ;
        vstd::arithmetic::div_mod::lemma_div_multiples_vanish(k * frac(), wu);
        assert(wu * (k * frac()) == (k * frac()) * wu) by (nonlinear_arith);
        let e = div_floor(wf, wu);
        assert(e == k * frac());
        assert(e / frac() == k && e % frac() == 0) by (nonlinear_arith)
            requires
                e == k * frac(),
                k >= 1,
        ;
        assert(k <= fixed_weight) by (nonlinear_arith)
            requires
                fixed_weight == k * unknown_weight,
                unknown_weight >= 1,
                k >= 1,
        ;
        assert((k as u32) as nat == k);
        if fb * frac() <= u128::MAX && fa * frac() <= u128::MAX && ub * frac() <= u128::MAX
            && fa * frac() > 0 {
            let b = div_floor(fb * frac(), fa * frac());
            assert(b >= 0) by (nonlinear_arith)
                requires
                    b == ((fb * frac()) * frac()) / (fa * frac()),
                    fb >= 0,
                    fa * frac() > 0,
            ;
            if b == 0 {
                crate::decimal::lemma_pow_of_zero(k);
            }
        }
    }
}

/// Where the asset paid in weighs a whole `k` times the asset paid out, the amount out is
/// `balance_out * (1 - (balance_in / (balance_in + amount_in_less_fee)) ^ k)`: the
/// exponent is the weight in over the weight out. With equal weights that is what a
/// pool of equal weights pays.
pub proof fn lemma_swap_whole_weight_ratio(
    mm: InterchainMarketMaker,
    amount_in: Coin,
    denom_out: Seq<char>,
    k: nat,
)
    requires
        swap_defined(mm, amount_in, denom_out),
        k >= 1,
    ensures
        match (
            first_with_denom(mm.pool.assets@, amount_in.denom@, 0),
            first_with_denom(mm.pool.assets@, denom_out, 0),
        ) {
            (Some(i), Some(o)) => {
                let ain = mm.pool.assets@[i];
                let aout = mm.pool.assets@[o];
                let after = ain.balance.amount + minus_fees_spec(
                    amount_in.amount as int,
                    mm.fee_rate as int,
                ) / frac();
                aout.weight > 0 && ain.weight == k * aout.weight ==> (swap_spec(
                    mm,
                    amount_in,
                    denom_out,
                ) matches Ok(v) ==> {
                    &&& whole_power_out(
                        ain.balance.amount as int,
                        after,
                        ain.decimal as int,
                        aout.balance.amount as int,
                        aout.decimal as int,
                        k,
                    ) == Some(v)
                    &&& k == 1 ==> equal_weight_out(
                        ain.balance.amount as int,
                        after,
                        ain.decimal as int,
                        aout.balance.amount as int,
                        aout.decimal as int,
                    ) == Some(v)
                })
            },
            _ => true,
        },
{
    if let (Some(i), Some(o)) = (
        first_with_denom(mm.pool.assets@, amount_in.denom@, 0),
        first_with_denom(mm.pool.assets@, denom_out, 0),
    ) {
        let ain = mm.pool.assets@[i];
        let aout = mm.pool.assets@[o];
        let amt = amount_in.amount as int;
        let after = ain.balance.amount + minus_fees_spec(amt, mm.fee_rate as int) / frac();
        if aout.weight > 0 && ain.weight == k * aout.weight {
            assert(minus_fees_spec(amt, mm.fee_rate as int) / frac() >= 0);
            lemma_trade_whole_ratio(
                ain.balance.amount as int,
                after,
                ain.decimal as int,
                ain.weight as int,
                aout.balance.amount as int,
                aout.decimal as int,
                aout.weight as int,
                k,
            );
            if k == 1 {
                lemma_adjust_precision_monotone(ain.balance.amount as int, after, ain.decimal as int, 12);
                lemma_adjust_precision_nonneg(ain.balance.amount as int, ain.decimal as int, 12);
                if let (Some(fb), Some(fa)) = (
                    adjust_precision_spec(ain.balance.amount as int, ain.decimal as int, 12),
                    adjust_precision_spec(after, ain.decimal as int, 12),
                ) {
                    if fa * frac() > 0 && fb * frac() <= u128::MAX {
                        let b = div_floor(fb * frac(), fa * frac());
                        assert(0 <= b <= frac()) by (nonlinear_arith)
                            requires
                                b == ((fb * frac()) * frac()) / (fa * frac()),
                                0 <= fb <= fa,
                                fa * frac() > 0,
                        {
                            assert((fb * frac()) * frac() <= (fa * frac()) * frac());
                        }
                        crate::decimal::lemma_pow_one(b);
                    }
                }
            }
        }
    }
}

/// Where the asset paid out weighs a whole `k` times the asset paid in, the invariant's
/// amount in for `amount_out` (before the fee, see `lemma_offer_includes_fee`) is
/// `balance_in * ((balance_out / (balance_out - amount_out)) ^ k - 1)`: the exponent is
/// the weight out over the weight in.
pub proof fn lemma_offer_whole_weight_ratio(
    mm: InterchainMarketMaker,
    amount_in: Coin,
    amount_out: Coin,
    k: nat,
)
    requires
        offer_defined(mm, amount_in, amount_out),
        k >= 1,
    ensures
        match (
            first_with_denom(mm.pool.assets@, amount_in.denom@, 0),
            first_with_denom(mm.pool.assets@, amount_out.denom@, 0),
        ) {
            (Some(i), Some(o)) => {
                let ain = mm.pool.assets@[i];
                let aout = mm.pool.assets@[o];
                ain.weight > 0 && aout.weight == k * ain.weight ==> (trade_spec(
                    aout.balance.amount as int,
                    aout.balance.amount - amount_out.amount,
                    aout.decimal as int,
                    aout.weight as int,
                    ain.balance.amount as int,
                    ain.decimal as int,
                    ain.weight as int,
                ) matches Ok(t) ==> whole_power_out(
                    aout.balance.amount as int,
                    aout.balance.amount - amount_out.amount,
                    aout.decimal as int,
                    ain.balance.amount as int,
                    ain.decimal as int,
                    k,
                ) == Some(t))
            },
            _ => true,
        },
{
    if let (Some(i), Some(o)) = (
        first_with_denom(mm.pool.assets@, amount_in.denom@, 0),
        first_with_denom(mm.pool.assets@, amount_out.denom@, 0),
    ) {
        let ain = mm.pool.assets@[i];
        let aout = mm.pool.assets@[o];
        if ain.weight > 0 && aout.weight == k * ain.weight {
            lemma_trade_whole_ratio(
                aout.balance.amount as int,
                aout.balance.amount - amount_out.amount,
                aout.decimal as int,
                aout.weight as int,
                ain.balance.amount as int,
                ain.decimal as int,
                ain.weight as int,
                k,
            );
        }
    }
}

/// Paying in the asset that weighs at least as much as the asset paid out gives at least
/// what a pool of equal weights would pay for the same amount in (less fees):
/// `balance_out * (1 - balance_in / (balance_in + amount_in_less_fee))`. The weighted
/// invariant raises `balance_in / (balance_in + amount_in_less_fee)`, below one, to the
/// power `weight_in / weight_out`, which is then at least one.
pub proof fn lemma_swap_from_heavier_side(mm: InterchainMarketMaker, amount_in: Coin, denom_out: Seq<char>)
    requires
        swap_defined(mm, amount_in, denom_out),
    ensures
        match (
            first_with_denom(mm.pool.assets@, amount_in.denom@, 0),
            first_with_denom(mm.pool.assets@, denom_out, 0),
        ) {
            (Some(i), Some(o)) => {
                let ain = mm.pool.assets@[i];
                let aout = mm.pool.assets@[o];
                let after = ain.balance.amount + minus_fees_spec(
                    amount_in.amount as int,
                    mm.fee_rate as int,
                ) / frac();
                0 < aout.weight <= ain.weight ==> (swap_spec(mm, amount_in, denom_out) matches Ok(v)
                    ==> (equal_weight_out(
                    ain.balance.amount as int,
                    after,
                    ain.decimal as int,
                    aout.balance.amount as int,
                    aout.decimal as int,
                ) matches Some(c) && c <= v))
            },
            _ => true,
        },
{
    if let (Some(i), Some(o)) = (
        first_with_denom(mm.pool.assets@, amount_in.denom@, 0),
        first_with_denom(mm.pool.assets@, denom_out, 0),
    ) {
        let ain = mm.pool.assets@[i];
        let aout = mm.pool.assets@[o];
        let amt = amount_in.amount as int;
        let after = ain.balance.amount + minus_fees_spec(amt, mm.fee_rate as int) / frac();
        let win = ain.weight as int;
        let wout = aout.weight as int;
        if 0 < wout <= win {
            assert(minus_fees_spec(amt, mm.fee_rate as int) / frac() >= 0);
            lemma_adjust_precision_monotone(ain.balance.amount as int, after, ain.decimal as int, 12);
            lemma_adjust_precision_nonneg(ain.balance.amount as int, ain.decimal as int, 12);
            lemma_adjust_precision_nonneg(aout.balance.amount as int, aout.decimal as int, 12);
            if let (Some(fb), Some(fa), Some(ub)) = (
                adjust_precision_spec(ain.balance.amount as int, ain.decimal as int, 12),
                adjust_precision_spec(after, ain.decimal as int, 12),
                adjust_precision_spec(aout.balance.amount as int, aout.decimal as int, 12),
            ) {
                let wf = weight_dec(win);
                let wu = weight_dec(wout);
                assert(wf == win * 10_000_000_000_000_000);
                assert(wu == wout * 10_000_000_000_000_000);
                let q = div_floor(wf, wu);
                assert(q / frac() <= win) by (nonlinear_arith)
                    requires
                        q == (wf * frac()) / wu,
                        wf == win * 10_000_000_000_000_000,
                        wu == wout * 10_000_000_000_000_000,
                        0 < wout <= win,
                {
                    assert(q * wu <= wf * frac());
                    assert(q * wout <= win * frac());
                    assert(q <= q * wout);
                }
                assert(win <= u32::MAX);
                if fb * frac() <= u128::MAX && fa * frac() <= u128::MAX && ub * frac() <= u128::MAX
                    && fa * frac() > 0 {
                    assert(fb * frac() <= fa * frac()) by (nonlinear_arith)
                        requires
                            0 <= fb <= fa,
                    ;
                    assert(ub * frac() >= 0) by (nonlinear_arith)
                        requires
                            ub >= 0,
                    ;
                    lemma_solve_heavier_fixed_side(fb * frac(), fa * frac(), wf, ub * frac(), wu);
                    let cp = mul_floor(ub * frac(), frac() - div_floor(fb * frac(), fa * frac()));
                    assert(cp >= 0) by (nonlinear_arith)
                        requires
                            cp == ((ub * frac()) * (frac() - div_floor(fb * frac(), fa * frac())))
                                / frac(),
                            ub * frac() >= 0,
                            frac() - div_floor(fb * frac(), fa * frac()) >= 0,
                    ;
                    if let Ok(a) = solve_spec(fb * frac(), fa * frac(), wf, ub * frac(), wu) {
                        vstd::arithmetic::div_mod::lemma_div_is_ordered(cp, a, frac());
                        vstd::arithmetic::div_mod::lemma_div_pos_is_pos(cp, frac());
                        lemma_adjust_precision_monotone(cp / frac(), a / frac(), 12, aout.decimal as int);
                    }
                }
            }
        }
    }
}

/// The inputs of a swap that do not make its arithmetic panic.
pub open spec fn swap_defined(mm: InterchainMarketMaker, amount_in: Coin, denom_out: Seq<char>) -> bool {
    match (
        first_with_denom(mm.pool.assets@, amount_in.denom@, 0),
        first_with_denom(mm.pool.assets@, denom_out, 0),
    ) {
        (Some(i), Some(o)) => {
            let ain = mm.pool.assets@[i];
            let aout = mm.pool.assets@[o];
            let post = ain.balance.amount + minus_fees_spec(
                amount_in.amount as int,
                mm.fee_rate as int,
            ) / frac();
            &&& amount_in.amount * frac() <= u128::MAX
            &&& mul_floor(amount_in.amount * frac(), fee_dec(mm.fee_rate as int))
                <= amount_in.amount * frac()
            &&& post <= u128::MAX
            &&& trade_defined(
                ain.balance.amount as int,
                post,
                ain.decimal as int,
                aout.decimal as int,
            )
        },
        _ => true,
    }
}

/// What it costs to take `amount_out` out of the pool: the invariant gives the amount
/// in before fees, which is then divided by one less the fee rate.
pub open spec fn offer_spec(mm: InterchainMarketMaker, amount_in: Coin, amount_out: Coin) -> Result<
    int,
    ContractError,
> {
    match first_with_denom(mm.pool.assets@, amount_in.denom@, 0) {
        None => Err(ContractError::AssetNotFound),
        Some(i) => match first_with_denom(mm.pool.assets@, amount_out.denom@, 0) {
            None => Err(ContractError::AssetNotFound),
            Some(o) => {
                let ain = mm.pool.assets@[i];
                let aout = mm.pool.assets@[o];
                match trade_spec(
                    aout.balance.amount as int,
                    aout.balance.amount - amount_out.amount,
                    aout.decimal as int,
                    aout.weight as int,
                    ain.balance.amount as int,
                    ain.decimal as int,
                    ain.weight as int,
                ) {
                    Err(e) => Err(e),
                    Ok(real_offer) => {
                        let inv = div_floor(frac(), frac() - fee_dec(mm.fee_rate as int));
                        let with_fee = mul_floor(real_offer, inv);
                        if with_fee > u128::MAX {
                            Err(ContractError::Math(MathError::Overflow))
                        } else {
                            Ok(with_fee)
                        }
                    },
                }
            },
        },
    }
}

/// A trade through the invariant on balances of 128 bits gives an amount of 128 bits.
proof fn lemma_trade_in_range(
    fixed_before: int,
    fixed_after: int,
    fixed_decimal: int,
    fixed_weight: int,
    unknown_before: int,
    unknown_decimal: int,
    unknown_weight: int,
)
    requires
        0 <= fixed_before <= u128::MAX,
        0 <= fixed_after <= u128::MAX,
        0 <= unknown_before <= u128::MAX,
    ensures
        trade_spec(
            fixed_before,
            fixed_after,
            fixed_decimal,
            fixed_weight,
            unknown_before,
            unknown_decimal,
            unknown_weight,
        ) matches Ok(x) ==> 0 <= x <= u128::MAX,
{
    lemma_adjust_precision_nonneg(unknown_before, unknown_decimal, 12);
    if let Some(ub) = adjust_precision_spec(unknown_before, unknown_decimal, 12) {
        if let Some(fb) = adjust_precision_spec(fixed_before, fixed_decimal, 12) {
            if let Some(fa) = adjust_precision_spec(fixed_after, fixed_decimal, 12) {
                if let Ok(p) = calculate_pow_spec(
                    div_floor(fb * frac(), fa * frac()),
                    div_floor(weight_dec(fixed_weight), weight_dec(unknown_weight)),
                    DEFAULT_PRECISION_ATOMICS as int,
                ) {
                    let u = ub * frac();
                    let d = distance_to_one(p);
                    assert(mul_floor(u, d) >= 0) by (nonlinear_arith)
                        requires
                            u >= 0,
                            d >= 0,
                    ;
                    let a = mul_floor(u, d);
                    assert(a / frac() <= a) by (nonlinear_arith)
                        requires
                            a >= 0,
                    ;
                    if a <= u128::MAX {
                        lemma_adjust_precision_nonneg(a / frac(), 12, unknown_decimal);
                    }
                }
            }
        }
    }
}

/// The amount that buys `amount_out` includes the fee: it is the invariant's amount in,
/// `t`, divided by one less the fee rate. So it is at least `t` plus the fee on `t`,
/// `floor(t * fee_rate / 10000)`, and at most `t * 10000 / (10000 - fee_rate)`.
pub proof fn lemma_offer_includes_fee(mm: InterchainMarketMaker, amount_in: Coin, amount_out: Coin)
    requires
        offer_defined(mm, amount_in, amount_out),
    ensures
        match (
            first_with_denom(mm.pool.assets@, amount_in.denom@, 0),
            first_with_denom(mm.pool.assets@, amount_out.denom@, 0),
        ) {
            (Some(i), Some(o)) => {
                let ain = mm.pool.assets@[i];
                let aout = mm.pool.assets@[o];
                match trade_spec(
                    aout.balance.amount as int,
                    aout.balance.amount - amount_out.amount,
                    aout.decimal as int,
                    aout.weight as int,
                    ain.balance.amount as int,
                    ain.decimal as int,
                    ain.weight as int,
                ) {
                    Ok(t) => offer_spec(mm, amount_in, amount_out) matches Ok(v) ==> {
                        &&& t + (t * mm.fee_rate) / 10000 <= v
                        &&& v * (10000 - mm.fee_rate) <= t * 10000
                    },
                    Err(_) => true,
                }
            },
            _ => true,
        },
{
    if let (Some(i), Some(o)) = (
        first_with_denom(mm.pool.assets@, amount_in.denom@, 0),
        first_with_denom(mm.pool.assets@, amount_out.denom@, 0),
    ) {
        let ain = mm.pool.assets@[i];
        let aout = mm.pool.assets@[o];
        if amount_out.amount <= aout.balance.amount {
            lemma_trade_in_range(
                aout.balance.amount as int,
                aout.balance.amount - amount_out.amount,
                aout.decimal as int,
                aout.weight as int,
                ain.balance.amount as int,
                ain.decimal as int,
                ain.weight as int,
            );
        }
        if let Ok(t) = trade_spec(
            aout.balance.amount as int,
            aout.balance.amount - amount_out.amount,
            aout.decimal as int,
            aout.weight as int,
            ain.balance.amount as int,
            ain.decimal as int,
            ain.weight as int,
        ) {
            if t >= 0 {
                let fr = mm.fee_rate as int;
                let f = fee_dec(fr);
                assert(f == fr * 100_000_000_000_000);
                assert(fr < 10000);
                let inv = div_floor(frac(), frac() - f);
                assert(inv * (frac() - f) <= frac() * frac() && frac() + f <= inv) by (nonlinear_arith)
                    requires
                        inv == (frac() * frac()) / (frac() - f),
                        0 <= f < frac(),
                {
                    assert((frac() + f) * (frac() - f) == frac() * frac() - f * f);
                    assert(f * f >= 0);
                }
                let v = mul_floor(t, inv);
                assert(t + (t * fr) / 10000 <= v && v * (10000 - fr) <= t * 10000) by (nonlinear_arith)
                    requires
                        v == (t * inv) / frac(),
                        t >= 0,
                        0 <= fr < 10000,
                        f == fr * 100_000_000_000_000,
                        frac() + f <= inv,
                        inv * (frac() - f) <= frac() * frac(),
                {
                    assert(t * inv >= t * (frac() + f));
                    assert(t * (frac() + f) == t * frac() + t * fr * 100_000_000_000_000);
                    assert(v * (frac() - f) * frac() <= t * inv * (frac() - f));
                }
            }
        }
    }
}

/// The inputs of an offer computation that do not make its arithmetic panic: a fee
/// rate below 100%, an amount out within the balance, and decimals that can be scaled.
pub open spec fn offer_defined(mm: InterchainMarketMaker, amount_in: Coin, amount_out: Coin) -> bool {
    match (
        first_with_denom(mm.pool.assets@, amount_in.denom@, 0),
        first_with_denom(mm.pool.assets@, amount_out.denom@, 0),
    ) {
        (Some(i), Some(o)) => {
            let ain = mm.pool.assets@[i];
            let aout = mm.pool.assets@[o];
            &&& fee_dec(mm.fee_rate as int) < frac()
            &&& amount_out.amount <= aout.balance.amount
            &&& trade_defined(
                aout.balance.amount as int,
                aout.balance.amount - amount_out.amount,
                aout.decimal as int,
                ain.decimal as int,
            )
        },
        _ => true,
    }
}

/// Solves the invariant for the unknown side of a trade, at 12 decimals.
fn trade_via_invariant(
    fixed_before: u128,
    fixed_after: u128,
    fixed_decimal: u32,
    fixed_weight: u32,
    unknown_before: u128,
    unknown_decimal: u32,
    unknown_weight: u32,
) -> (r: Result<u128, ContractError>)
    requires
        trade_defined(
            fixed_before as int,
            fixed_after as int,
            fixed_decimal as int,
            unknown_decimal as int,
        ),
    ensures
        match trade_spec(
            fixed_before as int,
            fixed_after as int,
            fixed_decimal as int,
            fixed_weight as int,
            unknown_before as int,
            unknown_decimal as int,
            unknown_weight as int,
        ) {
            Ok(x) => r == Ok::<u128, ContractError>(x as u128) && 0 <= x <= u128::MAX,
            Err(e) => r == Err::<u128, ContractError>(e),
        },
{
    proof {
        lemma_adjust_precision_nonneg(fixed_before as int, fixed_decimal as int, 12);
        lemma_adjust_precision_nonneg(fixed_after as int, fixed_decimal as int, 12);
        lemma_adjust_precision_nonneg(unknown_before as int, unknown_decimal as int, 12);
    }
    let fb = match adjust_precision(fixed_before, fixed_decimal as u8, FIXED_PRECISION) {
        Ok(v) => v,
        Err(e) => {
            return Err(e);
        },
    };
    let fa = match adjust_precision(fixed_after, fixed_decimal as u8, FIXED_PRECISION) {
        Ok(v) => v,
        Err(e) => {
            return Err(e);
        },
    };
    let ub = match adjust_precision(unknown_before, unknown_decimal as u8, FIXED_PRECISION) {
        Ok(v) => v,
        Err(e) => {
            return Err(e);
        },
    };
    let fb_dec = match Decimal::from_whole(fb) {
        Some(d) => d,
        None => {
            return Err(ContractError::Math(MathError::Overflow));
        },
    };
    let fa_dec = match Decimal::from_whole(fa) {
        Some(d) => d,
        None => {
            return Err(ContractError::Math(MathError::Overflow));
        },
    };
    let ub_dec = match Decimal::from_whole(ub) {
        Some(d) => d,
        None => {
            return Err(ContractError::Math(MathError::Overflow));
        },
    };
    let solved = match solve_constant_function_invariant(
        fb_dec,
        fa_dec,
        Decimal::from_ratio(fixed_weight as u128, 100),
        ub_dec,
        Decimal::from_ratio(unknown_weight as u128, 100),
    ) {
        Ok(d) => d,
        Err(e) => {
            return Err(ContractError::Math(e));
        },
    };
    proof {
        lemma_adjust_precision_nonneg(solved.atomics as int / frac(), 12, unknown_decimal as int);
    }
    adjust_precision(solved.to_uint_floor(), FIXED_PRECISION, unknown_decimal as u8)
}

/// The pool together with the fee rate, in basis points, that its trades pay.
#[derive(Clone, Debug, PartialEq, Eq)]
pub struct InterchainMarketMaker {
    pub pool: InterchainLiquidityPool,
    pub fee_rate: u32,
}

impl InterchainMarketMaker {
    pub fn new(pool_data: &InterchainLiquidityPool, fee_rate: u32) -> (r: InterchainMarketMaker)
        ensures
            same_pool(r.pool, *pool_data),
            r.fee_rate == fee_rate,
    {
        InterchainMarketMaker { pool: pool_data.duplicate(), fee_rate }
    }

    /// The pool shares minted for a one-sided deposit of `token`, priced by the weighted
    /// pool invariant; only an active pool takes such deposits.
    pub fn deposit_single_asset(&self, token: &Coin) -> (r: Result<Coin, ContractError>)
        requires
            deposit_single_defined(*self, *token),
        ensures
            match deposit_single_spec(*self, *token) {
                Ok(s) => r == Ok::<Coin, ContractError>(
                    Coin { denom: self.pool.supply.denom, amount: s as u128 },
                ),
                Err(e) => r == Err::<Coin, ContractError>(e),
            },
    {
        let asset = match self.pool.find_asset_by_denom(token.denom.as_str()) {
            Ok(a) => a,
            Err(e) => {
                return Err(e);
            },
        };
        if self.pool.status != PoolStatus::Active {
            return Err(ContractError::NotReadyForSwap);
        }
        let weighted = WeightedAsset {
            asset: token.duplicate(),
            weight: Decimal::from_ratio(asset.weight as u128, 100),
        };
        let fee = Decimal::from_ratio(self.fee_rate as u128, FEE_PRECISION as u128);
        match calc_minted_shares_given_single_asset_in(
            token.amount,
            asset.decimal,
            &weighted,
            self.pool.supply.amount,
            fee,
        ) {
            Ok((issue_amount, _fee_charged)) => Ok(
                Coin { amount: issue_amount, denom: self.pool.supply.denom.clone() },
            ),
            Err(e) => Err(ContractError::Math(e)),
        }
    }

    /// The sum of the pool's balances, each written with 18 decimals.
    fn scaled_total_of_assets(&self) -> (r: Result<u128, ContractError>)
        requires
            scaled_total_defined(self.pool.assets@),
        ensures
            match scaled_total(self.pool.assets@, self.pool.assets@.len() as int) {
                Some(t) => r == Ok::<u128, ContractError>(t as u128) && 0 <= t <= u128::MAX,
                None => r == Err::<u128, ContractError>(ContractError::Math(MathError::Overflow)),
            },
    {
        let mut total: u128 = 0;
        let mut k: usize = 0;
        while k < self.pool.assets.len()
            invariant
                k <= self.pool.assets.len(),
                scaled_total_defined(self.pool.assets@),
                scaled_total(self.pool.assets@, k as int) == Some(total as int),
            decreases self.pool.assets.len() - k,
        {
            let asset = &self.pool.assets[k];
            proof {
                assert(scaled_total(self.pool.assets@, k as int) is Some);
                lemma_adjust_precision_nonneg(asset.balance.amount as int, asset.decimal as int, 18);
            }
            let scaled = match adjust_precision(asset.balance.amount, asset.decimal as u8, 18) {
                Ok(v) => v,
                Err(e) => {
                    proof {
                        assert(scaled_total(self.pool.assets@, self.pool.assets@.len() as int) is None)
                            by {
                            lemma_scaled_total_none(self.pool.assets@, k as int + 1, self.pool.assets@.len() as int);
                        }
                    }
                    return Err(e);
                },
            };
            total = total + scaled;
            k = k + 1;
        }
        Ok(total)
    }

    /// The issue decimal of a two-sided deposit of `token`.
    fn issue_amount(&self, token: &Coin) -> (r: Result<Decimal, ContractError>)
        requires
            issue_defined(self.pool, *token),
        ensures
            match issue_spec(self.pool, *token) {
                Ok(a) => r == Ok::<Decimal, ContractError>(Decimal { atomics: a as u128 }) && 0 <= a
                    <= u128::MAX,
                Err(e) => r == Err::<Decimal, ContractError>(e),
            },
    {
        let asset = match self.pool.find_asset_by_denom(token.denom.as_str()) {
            Ok(a) => a,
            Err(e) => {
                return Err(e);
            },
        };
        if self.pool.status == PoolStatus::Initialized && self.pool.supply.amount == 0 {
            let total_asset_amount = match self.scaled_total_of_assets() {
                Ok(t) => t,
                Err(e) => {
                    return Err(e);
                },
            };
            let mult_amount = match total_asset_amount.checked_mul(asset.weight as u128) {
                Some(m) => m,
                None => {
                    return Err(ContractError::Math(MathError::Overflow));
                },
            };
            proof {
                assert(div_floor(mult_amount as int, 100) >= 0) by (nonlinear_arith)
                    requires
                        mult_amount >= 0,
                ;
            }
            Ok(Decimal::from_ratio(mult_amount, 100))
        } else {
            let ratio = Decimal::from_ratio(token.amount, asset.balance.amount);
            let issue = Decimal::from_ratio(self.pool.supply.amount, 100);
            proof {
                let (a, b) = (issue.atomics as int, ratio.atomics as int);
                assert(mul_floor(a, b) >= 0) by (nonlinear_arith)
                    requires
                        a >= 0,
                        b >= 0,
                ;
            }
            let issue = match issue.checked_mul(ratio) {
                Some(d) => d,
                None => {
                    return Err(ContractError::Math(MathError::Overflow));
                },
            };
            let weight = match Decimal::from_whole(asset.weight as u128) {
                Some(d) => d,
                None => {
                    return Err(ContractError::Math(MathError::Overflow));
                },
            };
            proof {
                let (a, b) = (issue.atomics as int, weight.atomics as int);
                assert(mul_floor(a, b) >= 0) by (nonlinear_arith)
                    requires
                        a >= 0,
                        b >= 0,
                ;
            }
            match issue.checked_mul(weight) {
                Some(d) => Ok(d),
                None => Err(ContractError::Math(MathError::Overflow)),
            }
        }
    }

    /// The share coins issued for a two-sided deposit, one per token, each rounded up:
    /// `supply / 100 * (amount / balance) * weight`, or, for a pool not funded yet,
    /// the scaled sum of its balances times the weight over 100.
    pub fn deposit_multi_asset(&self, tokens: &[Coin]) -> (r: Result<Vec<Coin>, ContractError>)
        requires
            forall|k: int|
                0 <= k < tokens@.len() && #[trigger] deposit_multi_spec(self.pool, tokens@, k)
                    is Ok ==> issue_defined(self.pool, tokens@[k]),
        ensures
            match deposit_multi_spec(self.pool, tokens@, tokens@.len() as int) {
                Ok(s) => r matches Ok(v) && v@ == s,
                Err(e) => r == Err::<Vec<Coin>, ContractError>(e),
            },
    {
        let mut out_tokens: Vec<Coin> = Vec::new();
        let mut k: usize = 0;
        while k < tokens.len()
            invariant
                k <= tokens@.len(),
                forall|j: int|
                    0 <= j < tokens@.len() && #[trigger] deposit_multi_spec(self.pool, tokens@, j)
                        is Ok ==> issue_defined(self.pool, tokens@[j]),
                deposit_multi_spec(self.pool, tokens@, k as int) == Ok::<Seq<Coin>, ContractError>(
                    out_tokens@,
                ),
            decreases tokens.len() - k,
        {
            let issue = match self.issue_amount(&tokens[k]) {
                Ok(d) => d,
                Err(e) => {
                    proof {
                        lemma_deposit_multi_err(self.pool, tokens@, k as int + 1, tokens@.len() as int);
                    }
                    return Err(e);
                },
            };
            out_tokens.push(
                Coin { denom: self.pool.supply.denom.clone(), amount: issue.to_uint_ceil() },
            );
            k = k + 1;
        }
        Ok(out_tokens)
    }

    /// The amount of `denom_out` that a swap of `amount_in` returns: the amount in, less
    /// the fee, joins its side of the pool and the weighted invariant gives the amount out.
    pub fn compute_swap(&self, amount_in: Coin, denom_out: &str) -> (r: Result<Coin, ContractError>)
        requires
            swap_defined(*self, amount_in, denom_out@),
        ensures
            match swap_spec(*self, amount_in, denom_out@) {
                Ok(x) => r matches Ok(c) && c.amount == x && c.denom@ == denom_out@,
                Err(e) => r == Err::<Coin, ContractError>(e),
            },
    {
        let asset_in = match self.pool.find_asset_by_denom(amount_in.denom.as_str()) {
            Ok(a) => a,
            Err(e) => {
                return Err(e);
            },
        };
        let asset_out = match self.pool.find_asset_by_denom(denom_out) {
            Ok(a) => a,
            Err(e) => {
                return Err(e);
            },
        };
        let after_fees = self.minus_fees(amount_in.amount);
        let pool_post_swap_in_balance = asset_in.balance.amount + after_fees.to_uint_floor();
        let return_amount = match trade_via_invariant(
            asset_in.balance.amount,
            pool_post_swap_in_balance,
            asset_in.decimal,
            asset_in.weight,
            asset_out.balance.amount,
            asset_out.decimal,
            asset_out.weight,
        ) {
            Ok(v) => v,
            Err(e) => {
                return Err(e);
            },
        };
        Ok(Coin { amount: return_amount, denom: denom_out.to_owned() })
    }

    /// The amount of `amount_in`'s denomination that buys `amount_out`, fee included:
    /// the invariant gives the amount before fees, which is divided by one less the
    /// fee rate.
    pub fn compute_offer_amount(&self, amount_in: Coin, amount_out: Coin) -> (r: Result<
        Coin,
        ContractError,
    >)
        requires
            offer_defined(*self, amount_in, amount_out),
        ensures
            match offer_spec(*self, amount_in, amount_out) {
                Ok(x) => r == Ok::<Coin, ContractError>(
                    Coin { denom: amount_in.denom, amount: x as u128 },
                ) && 0 <= x,
                Err(e) => r == Err::<Coin, ContractError>(e),
            },
    {
        let asset_in = match self.pool.find_asset_by_denom(amount_in.denom.as_str()) {
            Ok(a) => a,
            Err(e) => {
                return Err(e);
            },
        };
        let asset_out = match self.pool.find_asset_by_denom(amount_out.denom.as_str()) {
            Ok(a) => a,
            Err(e) => {
                return Err(e);
            },
        };
        let fee = Decimal::from_ratio(self.fee_rate as u128, FEE_PRECISION as u128);
        let fee256 = match crate::ics101::utils::decimal2decimal256(fee) {
            Ok(d) => d,
            Err(e) => {
                return Err(e);
            },
        };
        let one_minus_commission = Decimal256 {
            atomics: Decimal256::one().atomics - fee256.atomics,
        };
        let inv_one_minus_commission = one_minus_commission.inverse();
        let pool_post_swap_out_balance = asset_out.balance.amount - amount_out.amount;
        let real_offer = match trade_via_invariant(
            asset_out.balance.amount,
            pool_post_swap_out_balance,
            asset_out.decimal,
            asset_out.weight,
            asset_in.balance.amount,
            asset_in.decimal,
            asset_in.weight,
        ) {
            Ok(v) => v,
            Err(e) => {
                return Err(e);
            },
        };
        proof {
            let (a, b) = (real_offer as int, inv_one_minus_commission.atomics as int);
            assert(mul_floor(a, b) >= 0) by (nonlinear_arith)
                requires
                    a >= 0,
                    b >= 0,
            ;
        }
        let offer_amount_including_fee = match crate::decimal::uint256_mul_dec256(
            real_offer,
            inv_one_minus_commission,
        ) {
            Some(v) => v,
            None => {
                return Err(ContractError::Math(MathError::Overflow));
            },
        };
        Ok(Coin { amount: offer_amount_including_fee, denom: amount_in.denom })
    }

    /// `amount` less the fee, as a decimal: `amount - amount * fee_rate / 10000`.
    pub fn minus_fees(&self, amount: u128) -> (r: Decimal)
        requires
            amount * frac() <= u128::MAX,
            mul_floor(amount * frac(), fee_dec(self.fee_rate as int)) <= amount * frac(),
        ensures
            r.atomics == minus_fees_spec(amount as int, self.fee_rate as int),
    {
        let amount_dec = Decimal::from_ratio(amount, 1);
        proof {
            assert(div_floor(self.fee_rate as int, 10000) == self.fee_rate * 100_000_000_000_000);
        }
        let fee_rate_dec = Decimal::from_ratio(self.fee_rate as u128, 10000);
        let fees = match amount_dec.checked_mul(fee_rate_dec) {
            Some(d) => d,
            None => Decimal::zero(),
        };
        Decimal::raw(amount_dec.atomics - fees.atomics)
    }

    /// The assets paid out for burning `redeem` shares: each balance times the share
    /// of the supply that `redeem` is. Refused where a payout would exceed its balance.
    pub fn multi_asset_withdraw(&self, redeem: Coin) -> (r: Result<Vec<Coin>, ContractError>)
        requires
            self.pool.supply.amount != 0,
            share_out_ratio(redeem.amount as int, self.pool.supply.amount as int) <= u128::MAX,
            forall|i: int|
                0 <= i < self.pool.assets@.len() && withdraw_ok_upto(
                    self.pool.assets@,
                    share_out_ratio(redeem.amount as int, self.pool.supply.amount as int),
                    i,
                ) ==> asset_out(
                    #[trigger] self.pool.assets@[i].balance.amount as int,
                    share_out_ratio(redeem.amount as int, self.pool.supply.amount as int),
                ) <= u128::MAX,
        ensures
            ({
                let share = share_out_ratio(redeem.amount as int, self.pool.supply.amount as int);
                let assets = self.pool.assets@;
                &&& withdraw_ok_upto(assets, share, assets.len() as int) ==> (r matches Ok(v) && v@.len()
                    == assets.len() && forall|i: int|
                    0 <= i < assets.len() ==> #[trigger] v@[i] == (Coin {
                        denom: assets[i].balance.denom,
                        amount: asset_out(assets[i].balance.amount as int, share) as u128,
                    }))
                &&& !withdraw_ok_upto(assets, share, assets.len() as int) ==> r == Err::<
                    Vec<Coin>,
                    ContractError,
                >(ContractError::InvalidAssetOut)
            }),
    {
        let total_share = self.pool.supply.amount;
        let share = Decimal::from_ratio(redeem.amount, total_share);
        let ghost share_i = share.atomics as int;
        let mut refund_assets: Vec<Coin> = Vec::new();
        let mut i: usize = 0;
        while i < self.pool.assets.len()
            invariant
                i <= self.pool.assets.len(),
                share_i == share_out_ratio(redeem.amount as int, self.pool.supply.amount as int),
                share.atomics == share_i,
                withdraw_ok_upto(self.pool.assets@, share_i, i as int),
                forall|k: int|
                    0 <= k < self.pool.assets@.len() && withdraw_ok_upto(
                        self.pool.assets@,
                        share_i,
                        k,
                    ) ==> asset_out(#[trigger] self.pool.assets@[k].balance.amount as int, share_i)
                        <= u128::MAX,
                refund_assets@.len() == i,
                forall|k: int|
                    0 <= k < i ==> #[trigger] refund_assets@[k] == (Coin {
                        denom: self.pool.assets@[k].balance.denom,
                        amount: asset_out(self.pool.assets@[k].balance.amount as int, share_i)
                            as u128,
                    }),
            decreases self.pool.assets.len() - i,
        {
            let balance = self.pool.assets[i].balance.amount;
            proof {
                assert(asset_out(self.pool.assets@[i as int].balance.amount as int, share_i)
                    <= u128::MAX);
            }
            let out = crate::decimal::uint_mul_dec(balance, share);
            if out > balance {
                proof {
                    assert(!withdraw_ok_upto(
                        self.pool.assets@,
                        share_i,
                        self.pool.assets@.len() as int,
                    ));
                }
                return Err(ContractError::InvalidAssetOut);
            }
            refund_assets.push(
                Coin { denom: self.pool.assets[i].balance.denom.clone(), amount: out },
            );
            i = i + 1;
        }
        Ok(refund_assets)
    }
}

proof fn lemma_scaled_total_none(assets: Seq<PoolAsset>, k: int, n: int)
    requires
        1 <= k <= n,
        scaled_total(assets, k) is None,
    ensures
        scaled_total(assets, n) is None,
    decreases n - k,
{
    if k < n {
        lemma_scaled_total_none(assets, k + 1, n);
    }
}

proof fn lemma_deposit_multi_err(pool: InterchainLiquidityPool, tokens: Seq<Coin>, k: int, n: int)
    requires
        1 <= k <= n,
        deposit_multi_spec(pool, tokens, k) is Err,
    ensures
        deposit_multi_spec(pool, tokens, n) == deposit_multi_spec(pool, tokens, k),
    decreases n - k,
{
    if k < n {
        lemma_deposit_multi_err(pool, tokens, k + 1, n);
    }
}

proof fn lemma_last_with_denom_same_denoms(a: Seq<PoolAsset>, b: Seq<PoolAsset>, denom: Seq<char>, upto: int)
    requires
        a.len() == b.len(),
        forall|j: int| 0 <= j < a.len() ==> #[trigger] a[j].balance.denom@ == b[j].balance.denom@,
    ensures
        last_with_denom(a, denom, upto) == last_with_denom(b, denom, upto),
    decreases upto,
{
    if 0 < upto <= a.len() {
        lemma_last_with_denom_same_denoms(a, b, denom, upto - 1);
    }
}

/// Adding a token to a pool and then taking the same token out leaves the pool's
/// assets as they were.
pub proof fn lemma_add_then_subtract_asset(assets: Seq<PoolAsset>, token: Coin)
    requires
        can_add_asset(assets, token),
    ensures
        add_asset_spec(assets, token) matches Some(a) ==> subtract_asset_spec(a, token) == Some(assets),
{
    if let Some(i) = last_with_denom(assets, token.denom@, assets.len() as int) {
        lemma_last_with_denom_found(assets, token.denom@, assets.len() as int);
        let a = add_asset_spec(assets, token)->0;
        lemma_last_with_denom_same_denoms(a, assets, token.denom@, assets.len() as int);
        let b = subtract_asset_spec(a, token)->0;
        assert(b =~= assets);
    }
}

/// Taking a token out of a pool and then adding it back leaves the pool's assets as
/// they were.
pub proof fn lemma_subtract_then_add_asset(assets: Seq<PoolAsset>, token: Coin)
    requires
        can_subtract_asset(assets, token),
    ensures
        subtract_asset_spec(assets, token) matches Some(a) ==> add_asset_spec(a, token) == Some(assets),
{
    if let Some(i) = last_with_denom(assets, token.denom@, assets.len() as int) {
        lemma_last_with_denom_found(assets, token.denom@, assets.len() as int);
        let a = subtract_asset_spec(assets, token)->0;
        lemma_last_with_denom_same_denoms(a, assets, token.denom@, assets.len() as int);
        let b = add_asset_spec(a, token)->0;
        assert(b =~= assets);
    }
}

/// Redeeming at most the whole supply never pays out more than a balance: the
/// withdrawal of such an amount is never refused for it.
pub proof fn lemma_withdraw_within_supply(assets: Seq<PoolAsset>, redeem: u128, supply: u128)
    requires
        0 < supply,
        redeem <= supply,
    ensures
        share_out_ratio(redeem as int, supply as int) <= frac(),
        withdraw_ok_upto(assets, share_out_ratio(redeem as int, supply as int), assets.len() as int),
{
    let share = share_out_ratio(redeem as int, supply as int);
    assert(share <= frac()) by (nonlinear_arith)
        requires
            share == (redeem * frac()) / (supply as int),
            0 < supply,
            redeem <= supply,
    {
        assert(redeem * frac() <= supply * frac());
        vstd::arithmetic::div_mod::lemma_div_is_ordered(redeem * frac(), supply * frac(), supply as int);
        vstd::arithmetic::div_mod::lemma_div_multiples_vanish(frac(), supply as int);
    }
    assert forall|j: int| 0 <= j < assets.len() implies asset_out(
        #[trigger] assets[j].balance.amount as int,
        share,
    ) <= assets[j].balance.amount by {
        let b = assets[j].balance.amount as int;
        assert(mul_floor(b, share) <= b) by (nonlinear_arith)
            requires
                0 <= share <= frac(),
                0 <= b,
        {
            assert(b * share <= b * frac());
            vstd::arithmetic::div_mod::lemma_div_is_ordered(b * share, b * frac(), frac());
            vstd::arithmetic::div_mod::lemma_div_multiples_vanish(b, frac());
        }
    }
}

/// A proposal to change the fee rate of a pool.
#[derive(Clone, Debug, PartialEq, Eq)]
pub struct MarketFeeUpdateProposal {
    pub title: String,
    pub description: String,
    pub pool_id: String,
    pub fee_rate: u32,
}

} // verus!
