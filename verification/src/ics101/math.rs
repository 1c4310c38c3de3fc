//! The weighted-pool invariant of the interchain swap and the shares a one-sided
//! deposit mints.
use vstd::prelude::*;

use crate::decimal::{
    div_floor, frac, from_atomics_spec, mul_floor, Decimal, MathError, DECIMAL_FRACTIONAL,
    DECIMAL_PLACES,
};
use crate::ics101::approx_pow::{calculate_pow, calculate_pow_spec, DEFAULT_PRECISION_ATOMICS};
use crate::ics101::types::WeightedAsset;

verus! {

/// `|1 - p|` on atomics.
pub open spec fn distance_to_one(p: int) -> int {
    if p <= frac() {
        frac() - p
    } else {
        p - frac()
    }
}

/// What `solve_constant_function_invariant` returns, on atomics:
/// `balance_unknown * |1 - (before / after) ^ (weight_fixed / weight_unknown)|`.
pub open spec fn solve_spec(
    fixed_before: int,
    fixed_after: int,
    weight_fixed: int,
    unknown_before: int,
    weight_unknown: int,
) -> Result<int, MathError> {
    if weight_unknown == 0 {
        Err(MathError::DivideByZero)
    } else if div_floor(weight_fixed, weight_unknown) > u128::MAX {
        Err(MathError::Overflow)
    } else if fixed_after == 0 {
        Err(MathError::DivideByZero)
    } else if div_floor(fixed_before, fixed_after) > u128::MAX {
        Err(MathError::Overflow)
    } else {
        match calculate_pow_spec(
            div_floor(fixed_before, fixed_after),
            div_floor(weight_fixed, weight_unknown),
            DEFAULT_PRECISION_ATOMICS as int,
        ) {
            Err(e) => Err(e),
            Ok(p) => {
                let a = mul_floor(unknown_before, distance_to_one(p));
                if a > u128::MAX {
                    Err(MathError::Overflow)
                } else {
                    Ok(a)
                }
            },
        }
    }
}

/// Where the side whose balance grows weighs at least as much as the other, the other
/// side gives at least what equal weights would: `balance * (1 - before / after)`.
pub proof fn lemma_solve_heavier_fixed_side(
    fixed_before: int,
    fixed_after: int,
    weight_fixed: int,
    unknown_before: int,
    weight_unknown: int,
)
    requires
        0 <= fixed_before <= fixed_after,
        0 < fixed_after,
        0 < weight_unknown <= weight_fixed,
        0 <= unknown_before,
        div_floor(weight_fixed, weight_unknown) / frac() <= u32::MAX,
    ensures
        0 <= frac() - div_floor(fixed_before, fixed_after) <= frac(),
        solve_spec(fixed_before, fixed_after, weight_fixed, unknown_before, weight_unknown)
            matches Ok(a) ==> a >= mul_floor(
            unknown_before,
            frac() - div_floor(fixed_before, fixed_after),
        ),
{
    let b = div_floor(fixed_before, fixed_after);
    assert(0 <= b <= frac()) by (nonlinear_arith)
        requires
            b == (fixed_before * frac()) / fixed_after,
            0 <= fixed_before <= fixed_after,
            0 < fixed_after,
    {
        assert(fixed_before * frac() <= fixed_after * frac());
    }
    let e = div_floor(weight_fixed, weight_unknown);
    assert(e >= frac()) by (nonlinear_arith)
        requires
            e == (weight_fixed * frac()) / weight_unknown,
            0 < weight_unknown <= weight_fixed,
    {
        assert(weight_fixed * frac() >= weight_unknown * frac());
    }
    crate::ics101::approx_pow::lemma_pow_above_one_at_most_base(b, e, DEFAULT_PRECISION_ATOMICS as int);
    if let Ok(p) = calculate_pow_spec(b, e, DEFAULT_PRECISION_ATOMICS as int) {
        let d = distance_to_one(p);
        assert(d >= frac() - b);
        assert(mul_floor(unknown_before, d) >= mul_floor(unknown_before, frac() - b)) by (nonlinear_arith)
            requires
                unknown_before >= 0,
                d >= frac() - b >= 0,
        {
            assert(unknown_before * d >= unknown_before * (frac() - b));
        }
    }
}

/// Solves the constant function of a weighted pool for the change of the unknown side:
/// `balance_y * |1 - (balance_x_before / balance_x_after) ^ (weight_x / weight_y)|`.
pub fn solve_constant_function_invariant(
    token_balance_fixed_before: Decimal,
    token_balance_fixed_after: Decimal,
    token_weight_fixed: Decimal,
    token_balance_unknown_before: Decimal,
    token_weight_unknown: Decimal,
) -> (r: Result<Decimal, MathError>)
    ensures
        match solve_spec(
            token_balance_fixed_before.atomics as int,
            token_balance_fixed_after.atomics as int,
            token_weight_fixed.atomics as int,
            token_balance_unknown_before.atomics as int,
            token_weight_unknown.atomics as int,
        ) {
            Ok(a) => r == Ok::<Decimal, MathError>(Decimal { atomics: a as u128 }),
            Err(e) => r == Err::<Decimal, MathError>(e),
        },
{
    if token_weight_unknown.is_zero() {
        return Err(MathError::DivideByZero);
    }
    let weight_ratio = match token_weight_fixed.checked_div(token_weight_unknown) {
        Some(d) => d,
        None => {
            return Err(MathError::Overflow);
        },
    };
    if token_balance_fixed_after.is_zero() {
        return Err(MathError::DivideByZero);
    }
    let y = match token_balance_fixed_before.checked_div(token_balance_fixed_after) {
        Some(d) => d,
        None => {
            return Err(MathError::Overflow);
        },
    };
    let y_to_weight_ratio = match calculate_pow(y, weight_ratio, None) {
        Ok(d) => d,
        Err(e) => {
            return Err(e);
        },
    };
    let paranthetical = if y_to_weight_ratio.atomics <= DECIMAL_FRACTIONAL {
        Decimal::raw(DECIMAL_FRACTIONAL - y_to_weight_ratio.atomics)
    } else {
        Decimal::raw(y_to_weight_ratio.atomics - DECIMAL_FRACTIONAL)
    };
    match token_balance_unknown_before.checked_mul(paranthetical) {
        Some(d) => Ok(d),
        None => Err(MathError::Overflow),
    }
}

/// The part of an amount kept after the fee: `1 - (1 - weight) * swap_fee`.
pub open spec fn fee_ratio_spec(normalized_weight: int, swap_fee: int) -> int {
    frac() - mul_floor(frac() - normalized_weight, swap_fee)
}

/// `1 - (1 - normalized_weight) * swap_fee`, the share of an amount that a one-sided
/// deposit keeps after its fee.
pub fn fee_ratio(normalized_weight: Decimal, swap_fee: Decimal) -> (r: Decimal)
    requires
        normalized_weight.atomics <= frac(),
        mul_floor(frac() - normalized_weight.atomics, swap_fee.atomics as int) <= frac(),
    ensures
        r.atomics == fee_ratio_spec(normalized_weight.atomics as int, swap_fee.atomics as int),
{
    let complement = Decimal::raw(DECIMAL_FRACTIONAL - normalized_weight.atomics);
    let charged = match complement.checked_mul(swap_fee) {
        Some(d) => d,
        None => Decimal::zero(),
    };
    Decimal::raw(DECIMAL_FRACTIONAL - charged.atomics)
}

/// The share of an amount that a one-sided deposit keeps, `1 - (1 - weight) * swap_fee`,
/// is at most one; it is exactly one without a fee or for an asset of the whole weight,
/// and below one once `(1 - weight) * swap_fee` reaches one atomic unit.
pub proof fn lemma_fee_ratio_at_most_one(normalized_weight: int, swap_fee: int)
    requires
        0 <= normalized_weight <= frac(),
        0 <= swap_fee,
    ensures
        fee_ratio_spec(normalized_weight, swap_fee) <= frac(),
        swap_fee == 0 || normalized_weight == frac() ==> fee_ratio_spec(normalized_weight, swap_fee)
            == frac(),
        (frac() - normalized_weight) * swap_fee >= frac() ==> fee_ratio_spec(
            normalized_weight,
            swap_fee,
        ) < frac(),
{
    let d = frac() - normalized_weight;
    assert(d * swap_fee >= 0) by (nonlinear_arith)
        requires
            d >= 0,
            swap_fee >= 0,
    ;
    assert(d * swap_fee >= frac() ==> (d * swap_fee) / frac() >= 1) by (nonlinear_arith);
    if swap_fee == 0 || normalized_weight == frac() {
        assert(d * swap_fee == 0) by (nonlinear_arith)
            requires
                d == 0 || swap_fee == 0,
        ;
    }
}

/// The fee a one-sided deposit of `token_amount_in` pays is the swap fee on the part of
/// it treated as swapped, `1 - weight`, rounded up:
/// `amount - floor(amount * (1 - (1 - weight) * swap_fee))`. It is never more than the
/// amount, and it is positive once something is deposited and `(1 - weight) * swap_fee`
/// reaches one atomic unit.
pub proof fn lemma_single_deposit_fee(
    token_amount_in: int,
    in_precision: int,
    balance: int,
    weight: int,
    total_shares: int,
    swap_fee: int,
)
    requires
        0 <= token_amount_in,
        0 <= weight <= frac(),
        0 <= swap_fee,
        ((frac() - weight) * swap_fee) / frac() <= frac(),
    ensures
        minted_shares_spec(token_amount_in, in_precision, balance, weight, total_shares, swap_fee)
            matches Ok((shares, fee)) ==> {
            let charged = ((frac() - weight) * swap_fee) / frac();
            &&& fee == token_amount_in - (token_amount_in * (frac() - charged)) / frac()
            &&& fee * frac() >= token_amount_in * charged
            &&& (fee - 1) * frac() < token_amount_in * charged
            &&& 0 <= fee <= token_amount_in
            &&& token_amount_in > 0 && (frac() - weight) * swap_fee >= frac() ==> fee > 0
        },
{
    let d = frac() - weight;
    let a = token_amount_in;
    assert(d * swap_fee >= 0) by (nonlinear_arith)
        requires
            d >= 0,
            swap_fee >= 0,
    ;
    let c = (d * swap_fee) / frac();
    assert(d * swap_fee >= frac() ==> c >= 1) by (nonlinear_arith)
        requires
            c == (d * swap_fee) / frac(),
    ;
    let kept = (a * (frac() - c)) / frac();
    let f = a - kept;
    assert(f * frac() >= a * c && (f - 1) * frac() < a * c && 0 <= f <= a) by (nonlinear_arith)
        requires
            0 <= c <= frac(),
            a >= 0,
            kept == (a * (frac() - c)) / frac(),
            f == a - kept,
    {
        assert(a * (frac() - c) == a * frac() - a * c);
        assert(kept * frac() <= a * (frac() - c) < kept * frac() + frac());
        assert(a * c >= 0);
        assert(a * (frac() - c) >= 0);
    }
    assert(a > 0 && c >= 1 ==> f > 0) by (nonlinear_arith)
        requires
            f * frac() >= a * c,
            a >= 0,
            c >= 0,
    ;
}

/// The inputs on which `calc_minted_shares_given_single_asset_in` runs without
/// panicking: a weight of at most one, a fee ratio of at most one, and amounts that
/// fit once scaled to 18 decimals.
pub open spec fn minted_shares_defined(
    token_amount_in: int,
    in_precision: int,
    balance: int,
    weight: int,
    swap_fee: int,
) -> bool {
    let after_fee = mul_floor(token_amount_in, fee_ratio_spec(weight, swap_fee));
    &&& weight <= frac()
    &&& mul_floor(frac() - weight, swap_fee) <= frac()
    &&& from_atomics_spec(after_fee, in_precision) is Some
    &&& from_atomics_spec(balance, in_precision) is Some
    &&& from_atomics_spec(after_fee, in_precision)->0 + from_atomics_spec(balance, in_precision)->0
        <= u128::MAX
}

/// What `calc_minted_shares_given_single_asset_in` returns: the shares minted and the
/// fee charged, on atomics.
pub open spec fn minted_shares_spec(
    token_amount_in: int,
    in_precision: int,
    balance: int,
    weight: int,
    total_shares: int,
    swap_fee: int,
) -> Result<(int, int), MathError> {
    let after_fee = mul_floor(token_amount_in, fee_ratio_spec(weight, swap_fee));
    let in_dec = from_atomics_spec(after_fee, in_precision)->0;
    let balance_dec = from_atomics_spec(balance, in_precision)->0;
    match solve_spec(balance_dec + in_dec, balance_dec, weight, total_shares, frac()) {
        Err(e) => Err(e),
        Ok(shares) => Ok((shares, token_amount_in - after_fee)),
    }
}

/// The pool shares minted for a one-sided deposit of `token_amount_in`, and the fee
/// charged on it. The fee applies to the part of the deposit that is treated as swapped,
/// `1 - weight`.
pub fn calc_minted_shares_given_single_asset_in(
    token_amount_in: u128,
    in_precision: u32,
    asset_weight_and_balance: &WeightedAsset,
    total_shares: u128,
    swap_fee_rate: Decimal,
) -> (r: Result<(u128, u128), MathError>)
    requires
        minted_shares_defined(
            token_amount_in as int,
            in_precision as int,
            asset_weight_and_balance.asset.amount as int,
            asset_weight_and_balance.weight.atomics as int,
            swap_fee_rate.atomics as int,
        ),
    ensures
        match minted_shares_spec(
            token_amount_in as int,
            in_precision as int,
            asset_weight_and_balance.asset.amount as int,
            asset_weight_and_balance.weight.atomics as int,
            total_shares as int,
            swap_fee_rate.atomics as int,
        ) {
            Ok((s, f)) => r == Ok::<(u128, u128), MathError>((s as u128, f as u128)),
            Err(e) => r == Err::<(u128, u128), MathError>(e),
        },
{
    let weight = asset_weight_and_balance.weight;
    let ratio = fee_ratio(weight, swap_fee_rate);
    proof {
        let fr = ratio.atomics as int;
        assert(0 <= mul_floor(token_amount_in as int, fr) <= token_amount_in) by (nonlinear_arith)
            requires
                0 <= fr <= frac(),
                token_amount_in >= 0,
        {
            assert(token_amount_in * fr <= token_amount_in * frac());
        }
    }
    let token_amount_in_after_fee = crate::decimal::uint_mul_dec(token_amount_in, ratio);
    proof {
        crate::decimal::lemma_from_atomics_nonneg(token_amount_in_after_fee as int, in_precision as int);
        crate::decimal::lemma_from_atomics_nonneg(
            asset_weight_and_balance.asset.amount as int,
            in_precision as int,
        );
    }
    let fee_charged = token_amount_in - token_amount_in_after_fee;
    let in_decimal = match Decimal::from_atomics(token_amount_in_after_fee, in_precision) {
        Some(d) => d,
        None => Decimal::zero(),
    };
    let balance_decimal = match Decimal::from_atomics(
        asset_weight_and_balance.asset.amount,
        in_precision,
    ) {
        Some(d) => d,
        None => Decimal::zero(),
    };
    let shares_decimal = Decimal::raw(total_shares);
    let pool_amount_out = match solve_constant_function_invariant(
        Decimal::raw(balance_decimal.atomics + in_decimal.atomics),
        balance_decimal,
        weight,
        shares_decimal,
        Decimal::one(),
    ) {
        Ok(d) => d,
        Err(e) => {
            return Err(e);
        },
    };
    Ok((pool_amount_out.atomics, fee_charged))
}

} // verus!
