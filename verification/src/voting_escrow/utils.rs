//! Periods, lock time limits, voting power decay and the boost coefficient.
use vstd::prelude::*;

use crate::decimal::{div_floor, frac, mul_floor, Decimal, Decimal256, DECIMAL_FRACTIONAL};
use crate::voting_escrow::error::ContractError;
use crate::voting_escrow::state::Point;

verus! {

/// Seconds in one week, the length of a period.
pub const WEEK: u64 = 604800;

/// Seconds in two years, the longest lock.
pub const MAX_LOCK_TIME: u64 = 63072000;

/// The start of period zero.
pub const EPOCH_START: u64 = 1696006400;

/// The period of a timestamp: whole weeks since the epoch start.
pub fn get_period(time: u64) -> (r: Result<u64, ContractError>)
    ensures
        time < EPOCH_START ==> r == Err::<u64, ContractError>(ContractError::InvalidTime),
        time >= EPOCH_START ==> r == Ok::<u64, ContractError>(((time - EPOCH_START) / WEEK as int) as u64),
{
    if time < EPOCH_START {
        Err(ContractError::InvalidTime)
    } else {
        Ok((time - EPOCH_START) / WEEK)
    }
}

/// The number of whole periods in `interval` seconds.
pub fn get_periods_count(interval: u64) -> (r: u64)
    ensures
        r == interval / WEEK,
{
    interval / WEEK
}

/// A lock time must be from one week to two years.
pub fn time_limits_check(time: u64) -> (r: Result<(), ContractError>)
    ensures
        r is Ok <==> WEEK <= time <= MAX_LOCK_TIME,
        r is Err ==> r == Err::<(), ContractError>(ContractError::LockTimeLimitsError),
{
    if !(WEEK <= time && time <= MAX_LOCK_TIME) {
        Err(ContractError::LockTimeLimitsError)
    } else {
        Ok(())
    }
}

/// Rounds the voting power down to a multiple of `dt` and returns the slope that takes
/// it to zero in `dt` periods. Refused where `dt` is zero.
pub fn adjust_vp_and_slope(vp: &mut u128, dt: u64) -> (r: Result<u128, ContractError>)
    ensures
        dt == 0 ==> r == Err::<u128, ContractError>(ContractError::DivideByZero) && *final(vp)
            == *old(vp),
        dt != 0 ==> r == Ok::<u128, ContractError>((*old(vp) as int / dt as int) as u128) && *final(vp)
            == (*old(vp) as int / dt as int) * dt,
        dt != 0 ==> *final(vp) <= *old(vp) && *old(vp) - *final(vp) < dt,
{
    if dt == 0 {
        return Err(ContractError::DivideByZero);
    }
    let slope = *vp / (dt as u128);
    proof {
        let (v, d, s) = (*old(vp) as int, dt as int, slope as int);
        assert(s * d <= v && v - s * d < d) by (nonlinear_arith)
            requires
                s == v / d,
                d > 0,
                v >= 0,
        {
            vstd::arithmetic::div_mod::lemma_fundamental_div_mod(v, d);
        }
    }
    *vp = slope * (dt as u128);
    Ok(slope)
}

/// The voting power of `point` at `period`: its power less `slope` per period since its
/// start, never below zero. A decrease that overflows 128 bits counts as none.
pub open spec fn voting_power_spec(point: Point, period: int) -> int {
    let shift = point.slope * (period - point.start);
    let shift = if shift > u128::MAX {
        0
    } else {
        shift
    };
    if shift > point.power {
        0
    } else {
        point.power - shift
    }
}

/// The voting power of `point` at `period`, which is not before its start.
pub fn calc_voting_power(point: &Point, period: u64) -> (r: u128)
    requires
        point.start <= period,
    ensures
        r == voting_power_spec(*point, period as int),
{
    let shift = match point.slope.checked_mul((period - point.start) as u128) {
        Some(s) => s,
        None => 0,
    };
    match point.power.checked_sub(shift) {
        Some(v) => v,
        None => 0,
    }
}

/// The periods a lock of the longest time lasts.
pub open spec fn max_lock_periods() -> int {
    MAX_LOCK_TIME as int / WEEK as int
}

/// The boost of a lock of `interval` periods, as decimal atomics: one plus 1.5 times
/// the share of the longest lock.
pub open spec fn coefficient_spec(interval: int) -> int {
    frac() + div_floor(15 * interval, max_lock_periods() * 10)
}

/// `1 + 1.5 * interval / 104`: one for no time, two and a half for the longest lock.
pub fn calc_coefficient(interval: u64) -> (r: Decimal)
    requires
        15 * interval <= u64::MAX,
    ensures
        r.atomics == coefficient_spec(interval as int),
{
    let ratio = Decimal::from_ratio((15 * interval) as u128, (get_periods_count(MAX_LOCK_TIME) * 10) as u128);
    Decimal::raw(DECIMAL_FRACTIONAL + ratio.atomics)
}

/// `amount` times a decimal, rounded down; zero where either is zero.
pub open spec fn checked_mul_uint128_spec(dec: int, amount: int) -> Option<int> {
    if dec == 0 || amount == 0 {
        Some(0)
    } else {
        let p = mul_floor(amount, dec);
        if p > u128::MAX {
            None
        } else {
            Some(p)
        }
    }
}

/// `amount` times `dec`, computed on 256 bits and rounded down; refused where the
/// product leaves 128 bits.
pub fn checked_mul_uint128(dec: Decimal, amount: u128) -> (r: Result<u128, ContractError>)
    ensures
        match checked_mul_uint128_spec(dec.atomics as int, amount as int) {
            Some(p) => r == Ok::<u128, ContractError>(p as u128),
            None => r == Err::<u128, ContractError>(ContractError::Overflow),
        },
{
    if dec.atomics == 0 || amount == 0 {
        return Ok(0);
    }
    match crate::decimal::uint256_mul_dec256(amount, Decimal256 { atomics: dec.atomics }) {
        Some(p) => Ok(p),
        None => Err(ContractError::Overflow),
    }
}

/// A scheduled change of the total slope after a lock's slope is withdrawn from it:
/// what is to be saved, or that the entry is to be removed.
#[derive(Clone, Copy, Debug, PartialEq, Eq, Structural)]
pub enum SlopeUpdate {
    /// Leave the schedule as it is.
    Keep,
    /// Save this slope change for the period.
    Save(u128),
    /// Remove the period's slope change.
    Remove,
}

/// Cancels `slope` from the change scheduled at `period`, where the period is still
/// ahead of the last applied change; an entry that becomes zero is removed.
pub fn cancel_scheduled_slope(
    scheduled: Option<u128>,
    last_slope_change: Option<u64>,
    slope: u128,
    period: u64,
) -> (r: SlopeUpdate)
    requires
        scheduled matches Some(s) ==> (period > (match last_slope_change {
            Some(l) => l,
            None => 0,
        }) ==> slope <= s),
    ensures
        ({
            let last = match last_slope_change {
                Some(l) => l,
                None => 0,
            };
            match scheduled {
                Some(s) => if period > last {
                    if s - slope != 0 {
                        r == SlopeUpdate::Save((s - slope) as u128)
                    } else {
                        r == SlopeUpdate::Remove
                    }
                } else {
                    r == SlopeUpdate::Keep
                },
                None => r == SlopeUpdate::Keep,
            }
        }),
{
    let last = match last_slope_change {
        Some(l) => l,
        None => 0,
    };
    match scheduled {
        Some(s) => {
            if period > last {
                let new_slope = s - slope;
                if new_slope != 0 {
                    SlopeUpdate::Save(new_slope)
                } else {
                    SlopeUpdate::Remove
                }
            } else {
                SlopeUpdate::Keep
            }
        },
        None => SlopeUpdate::Keep,
    }
}

/// Schedules `slope` to leave the total slope at a period, where it is not zero: the
/// slope change to save there.
pub fn schedule_slope_change(scheduled: Option<u128>, slope: u128) -> (r: Option<u128>)
    requires
        scheduled matches Some(s) ==> s + slope <= u128::MAX,
    ensures
        slope == 0 ==> r is None,
        slope != 0 ==> r == Some(
            (match scheduled {
                Some(s) => s + slope,
                None => slope as int,
            }) as u128,
        ),
{
    if slope == 0 {
        None
    } else {
        match scheduled {
            Some(s) => Some(s + slope),
            None => Some(slope),
        }
    }
}

/// Voting power decays: at a later period a point never has more power, where the
/// decrease there does not overflow.
pub proof fn lemma_voting_power_decays(point: Point, p1: int, p2: int)
    requires
        point.start <= p1 <= p2,
        point.slope * (p2 - point.start) <= u128::MAX,
    ensures
        voting_power_spec(point, p2) <= voting_power_spec(point, p1),
{
    assert(point.slope * (p1 - point.start) <= point.slope * (p2 - point.start)) by (nonlinear_arith)
        requires
            point.start <= p1 <= p2,
            point.slope >= 0,
    ;
}

/// The boost is one for no time, two and a half for the longest lock, and grows with
/// the lock's length.
pub proof fn lemma_coefficient_bounds(i: int, j: int)
    requires
        0 <= i <= j,
    ensures
        coefficient_spec(0) == frac(),
        coefficient_spec(max_lock_periods()) == frac() * 5 / 2,
        coefficient_spec(i) <= coefficient_spec(j),
{
    assert(max_lock_periods() == 104);
    assert(div_floor(15int * 104, 1040) == frac() * 3 / 2);
    assert(div_floor(15 * i, 1040int) <= div_floor(15 * j, 1040int)) by (nonlinear_arith)
        requires
            0 <= i <= j,
    {
        vstd::arithmetic::div_mod::lemma_div_is_ordered(15 * i * frac(), 15 * j * frac(), 1040);
    }
}

} // verus!
