//! Checkpoints of the vote escrow: locks and the voting power history. The caller
//! loads the last points, locks and scheduled slope changes these functions take, and
//! saves what they return.
use vstd::prelude::*;

use crate::decimal::{frac, Decimal};
use crate::voting_escrow::error::ContractError;
use crate::voting_escrow::msg::LockInfoResponse;
use crate::voting_escrow::state::{Config, Lock, Point};
use crate::voting_escrow::utils::{
    adjust_vp_and_slope, calc_coefficient, calc_voting_power, checked_mul_uint128,
    checked_mul_uint128_spec, coefficient_spec, get_period, get_periods_count,
    time_limits_check, voting_power_spec, EPOCH_START, MAX_LOCK_TIME, WEEK,
};

verus! {

/// The period of `time`, where it is not before the epoch start.
pub open spec fn period_of(time: int) -> int {
    (time - EPOCH_START) / WEEK as int
}

/// A new vote escrow at `now`: its configuration, and the total voting power history
/// starting at zero in the current period; `InvalidTime` before the epoch start.
pub fn instantiate(admin: String, deposit_token: String, now: u64) -> (r: Result<(Config, Point), ContractError>)
    ensures
        now < EPOCH_START ==> r == Err::<(Config, Point), ContractError>(ContractError::InvalidTime),
        now >= EPOCH_START ==> r == Ok::<(Config, Point), ContractError>(
            (
                Config { admin, deposit_token },
                Point { power: 0, start: period_of(now as int) as u64, end: 0, slope: 0 },
            ),
        ),
{
    let cur_period = match get_period(now) {
        Ok(p) => p,
        Err(e) => {
            return Err(e);
        },
    };
    Ok((Config { admin, deposit_token }, Point { power: 0, start: cur_period, end: 0, slope: 0 }))
}

/// A slope scheduled to leave the total slope at a period.
#[derive(Clone, Copy, Debug, PartialEq, Eq, Structural)]
pub struct ScheduledSlope {
    pub slope: u128,
    pub period: u64,
}

/// What a user checkpoint records: the user's new point, the voting power it adds to
/// the total, the slope it withdraws from the total, the lock to save where the lock
/// time was extended, and the scheduled slope change to cancel.
#[derive(Clone, Copy, Debug, PartialEq, Eq, Structural)]
pub struct UserCheckpoint {
    pub point: Point,
    pub add_voting_power: u128,
    pub old_slope: u128,
    pub lock: Option<Lock>,
    pub cancel: Option<ScheduledSlope>,
}

/// `a - b`, or zero.
pub open spec fn saturating_sub(a: int, b: int) -> int {
    if a > b {
        a - b
    } else {
        0
    }
}

/// The voting power of `amount` locked for `dt` periods, rounded down to a multiple
/// of `dt`, with the slope that takes it to zero in `dt` periods; `None` where the
/// product overflows.
pub open spec fn boosted(amount: int, base: int, dt: int) -> Option<(int, int)> {
    match checked_mul_uint128_spec(coefficient_spec(dt), amount) {
        None => None,
        Some(raw) => if base + raw > u128::MAX {
            None
        } else {
            let v = base + raw;
            Some(((v / dt) * dt, v / dt))
        },
    }
}

/// What `checkpoint` records for a user whose last point is `last`.
pub open spec fn checkpoint_spec(
    last: Option<Point>,
    lock: Option<Lock>,
    cur_period: int,
    add_amount: int,
    new_end: Option<u64>,
) -> Result<UserCheckpoint, ContractError> {
    match last {
        Some(point) => {
            let end = match new_end {
                Some(e) => e,
                None => point.end,
            };
            let dt = saturating_sub(end as int, cur_period);
            let current = voting_power_spec(point, cur_period);
            let extend = end > point.end && add_amount == 0;
            let step: Result<(int, int, Option<Lock>), ContractError> = if dt == 0 {
                Ok((0, 0, None))
            } else if extend {
                match lock {
                    None => Err(ContractError::LockDoesNotExist),
                    Some(l) => match boosted(l.amount as int, 0, dt) {
                        None => Err(ContractError::Overflow),
                        Some((v, s)) => Ok(
                            (
                                saturating_sub(v, current),
                                s,
                                Some(Lock { last_extend_lock_period: cur_period as u64, ..l }),
                            ),
                        ),
                    },
                }
            } else {
                match boosted(add_amount, current, dt) {
                    None => Err(ContractError::Overflow),
                    Some((v, s)) => Ok((saturating_sub(v, current), s, None)),
                }
            };
            match step {
                Err(e) => Err(e),
                Ok((add, slope, new_lock)) => Ok(
                    UserCheckpoint {
                        point: Point {
                            power: (current + add) as u128,
                            slope: slope as u128,
                            start: cur_period as u64,
                            end,
                        },
                        add_voting_power: add as u128,
                        old_slope: point.slope,
                        lock: new_lock,
                        cancel: Some(ScheduledSlope { slope: point.slope, period: point.end }),
                    },
                ),
            }
        },
        None => match new_end {
            None => Err(ContractError::CheckpointInitialization),
            Some(end) => {
                let dt = end - cur_period;
                if dt == 0 {
                    match checked_mul_uint128_spec(coefficient_spec(dt), add_amount) {
                        None => Err(ContractError::Overflow),
                        Some(_) => Err(ContractError::DivideByZero),
                    }
                } else {
                    match boosted(add_amount, 0, dt) {
                        None => Err(ContractError::Overflow),
                        Some((v, s)) => Ok(
                            UserCheckpoint {
                                point: Point {
                                    power: v as u128,
                                    slope: s as u128,
                                    start: cur_period as u64,
                                    end,
                                },
                                add_voting_power: v as u128,
                                old_slope: 0,
                                lock: None,
                                cancel: None,
                            },
                        ),
                    }
                }
            },
        },
    }
}

/// The inputs of a user checkpoint on which it does not panic.
pub open spec fn checkpoint_defined(last: Option<Point>, cur_period: int, new_end: Option<u64>) -> bool {
    &&& 15 * (match last {
        Some(point) => saturating_sub(
            (match new_end {
                Some(e) => e,
                None => point.end,
            }) as int,
            cur_period,
        ),
        None => match new_end {
            Some(e) => e - cur_period,
            None => 0,
        },
    }) <= u64::MAX
    &&& match last {
        Some(point) => point.start <= cur_period,
        None => new_end matches Some(e) ==> cur_period <= e,
    }
}

/// Recomputes a user's voting power at the current period after a lock is created,
/// grown, or given more time. The tokens added (or, where the end moves later and no
/// tokens are added, all the locked tokens over the new time) are boosted by the
/// coefficient of the remaining periods; the new power is rounded down to a multiple of
/// the remaining periods and decays to zero at the end.
pub fn checkpoint(
    last: Option<Point>,
    lock: Option<Lock>,
    cur_period: u64,
    add_amount: u128,
    new_end: Option<u64>,
) -> (r: Result<UserCheckpoint, ContractError>)
    requires
        checkpoint_defined(last, cur_period as int, new_end),
    ensures
        r == checkpoint_spec(last, lock, cur_period as int, add_amount as int, new_end),
        r matches Ok(c) ==> (last matches Some(p) ==> c.point.power >= voting_power_spec(
            p,
            cur_period as int,
        )),
{
    match last {
        Some(point) => {
            let end = match new_end {
                Some(e) => e,
                None => point.end,
            };
            let dt = end.saturating_sub(cur_period);
            let current_power = calc_voting_power(&point, cur_period);
            let mut add_voting_power: u128 = 0;
            let mut new_lock: Option<Lock> = None;
            let new_slope = if dt != 0 {
                if end > point.end && add_amount == 0 {
                    let mut l = match lock {
                        Some(l) => l,
                        None => {
                            return Err(ContractError::LockDoesNotExist);
                        },
                    };
                    let mut new_voting_power = match checked_mul_uint128(
                        calc_coefficient(dt),
                        l.amount,
                    ) {
                        Ok(v) => v,
                        Err(e) => {
                            return Err(e);
                        },
                    };
                    let slope = match adjust_vp_and_slope(&mut new_voting_power, dt) {
                        Ok(s) => s,
                        Err(e) => {
                            return Err(e);
                        },
                    };
                    add_voting_power = new_voting_power.saturating_sub(current_power);
                    l.last_extend_lock_period = cur_period;
                    new_lock = Some(l);
                    slope
                } else {
                    let raw_add_voting_power = match checked_mul_uint128(
                        calc_coefficient(dt),
                        add_amount,
                    ) {
                        Ok(v) => v,
                        Err(e) => {
                            return Err(e);
                        },
                    };
                    let mut new_voting_power = match current_power.checked_add(
                        raw_add_voting_power,
                    ) {
                        Some(v) => v,
                        None => {
                            return Err(ContractError::Overflow);
                        },
                    };
                    let slope = match adjust_vp_and_slope(&mut new_voting_power, dt) {
                        Ok(s) => s,
                        Err(e) => {
                            return Err(e);
                        },
                    };
                    add_voting_power = new_voting_power.saturating_sub(current_power);
                    slope
                }
            } else {
                0
            };
            Ok(
                UserCheckpoint {
                    point: Point {
                        power: current_power + add_voting_power,
                        slope: new_slope,
                        start: cur_period,
                        end,
                    },
                    add_voting_power,
                    old_slope: point.slope,
                    lock: new_lock,
                    cancel: Some(ScheduledSlope { slope: point.slope, period: point.end }),
                },
            )
        },
        None => {
            let end = match new_end {
                Some(e) => e,
                None => {
                    return Err(ContractError::CheckpointInitialization);
                },
            };
            let dt = end - cur_period;
            let mut add_voting_power = match checked_mul_uint128(calc_coefficient(dt), add_amount) {
                Ok(v) => v,
                Err(e) => {
                    return Err(e);
                },
            };
            let slope = match adjust_vp_and_slope(&mut add_voting_power, dt) {
                Ok(s) => s,
                Err(e) => {
                    return Err(e);
                },
            };
            Ok(
                UserCheckpoint {
                    point: Point { power: add_voting_power, slope, start: cur_period, end },
                    add_voting_power,
                    old_slope: 0,
                    lock: None,
                    cancel: None,
                },
            )
        },
    }
}


/// A scheduled slope change: at `period` the total slope drops by `change`.
#[derive(Clone, Copy, Debug, PartialEq, Eq, Structural)]
pub struct SlopeChange {
    pub period: u64,
    pub change: u128,
}

/// A point carried forward to a scheduled slope change.
pub open spec fn apply_change(point: Point, c: SlopeChange) -> Point {
    Point {
        power: voting_power_spec(point, c.period as int) as u128,
        start: c.period,
        slope: (point.slope - c.change) as u128,
        ..point
    }
}

/// `point` carried forward through each of `changes` in turn.
pub open spec fn replay(point: Point, changes: Seq<SlopeChange>) -> Point
    decreases changes.len(),
{
    if changes.len() == 0 {
        point
    } else {
        apply_change(replay(point, changes.drop_last()), changes.last())
    }
}

proof fn lemma_replay_keeps_end(point: Point, changes: Seq<SlopeChange>)
    ensures
        replay(point, changes).end == point.end,
    decreases changes.len(),
{
    if changes.len() > 0 {
        lemma_replay_keeps_end(point, changes.drop_last());
    }
}

/// The changes come no earlier than the point they are applied to, and none takes more
/// slope than there is.
pub open spec fn replay_defined(point: Point, changes: Seq<SlopeChange>) -> bool {
    forall|k: int|
        0 <= k < changes.len() ==> {
            let q = #[trigger] replay(point, changes.take(k));
            &&& q.start <= changes[k].period
            &&& changes[k].change <= q.slope
        }
}

/// Carries `point` forward through each of `changes`, returning every intermediate
/// point with its period, and the last one.
fn replay_changes(point: Point, changes: &Vec<SlopeChange>) -> (r: (Vec<SlopeChange>, Vec<Point>, Point))
    requires
        replay_defined(point, changes@),
    ensures
        r.2 == replay(point, changes@),
        r.1@.len() == changes@.len(),
        forall|k: int| 0 <= k < changes@.len() ==> #[trigger] r.1@[k] == replay(point, changes@.take(k + 1)),
        r.0@ == changes@,
{
    let mut p = point;
    let mut points: Vec<Point> = Vec::new();
    let mut seen: Vec<SlopeChange> = Vec::new();
    let mut i: usize = 0;
    proof {
        assert(changes@.take(0) =~= Seq::<SlopeChange>::empty());
    }
    while i < changes.len()
        invariant
            i <= changes@.len(),
            replay_defined(point, changes@),
            p == replay(point, changes@.take(i as int)),
            points@.len() == i,
            seen@ == changes@.take(i as int),
            forall|k: int| 0 <= k < i ==> #[trigger] points@[k] == replay(point, changes@.take(k + 1)),
        decreases changes.len() - i,
    {
        let c = changes[i];
        proof {
            assert(changes@.take(i + 1).drop_last() =~= changes@.take(i as int));
            assert(changes@.take(i + 1).last() == c);
            let q = replay(point, changes@.take(i as int));
            assert(q.start <= changes@[i as int].period && changes@[i as int].change <= q.slope);
        }
        p = Point {
            power: calc_voting_power(&p, c.period),
            start: c.period,
            slope: p.slope - c.change,
            end: p.end,
        };
        points.push(p);
        seen.push(c);
        proof {
            assert(seen@ =~= changes@.take(i + 1));
        }
        i = i + 1;
    }
    proof {
        assert(changes@.take(changes@.len() as int) =~= changes@);
    }
    (seen, points, p)
}

/// What the total checkpoint records: the points recomputed at each scheduled slope
/// change, the period up to which changes are now applied (where it moved), and the new
/// total point.
#[derive(Clone, Debug, PartialEq, Eq)]
pub struct TotalCheckpoint {
    pub recalculated: Vec<Point>,
    pub last_slope_change: Option<u64>,
    pub point: Point,
}

/// The total point after the changes scheduled since the last applied one, before the
/// new power and slope are applied.
pub open spec fn total_base(point: Point, last_slope_change: int, cur_period: int, changes: Seq<SlopeChange>) -> Point {
    if last_slope_change < cur_period {
        replay(point, changes)
    } else {
        point
    }
}

/// The inputs of a total checkpoint on which it does not panic.
pub open spec fn total_checkpoint_defined(
    last: Option<Point>,
    last_slope_change: int,
    cur_period: int,
    changes: Seq<SlopeChange>,
    add: int,
    old_slope: int,
    new_slope: int,
) -> bool {
    match last {
        None => true,
        Some(point) => {
            let base = total_base(point, last_slope_change, cur_period, changes);
            &&& last_slope_change < cur_period ==> replay_defined(point, changes)
            &&& base.start <= cur_period
            &&& voting_power_spec(base, cur_period) + add <= u128::MAX
            &&& old_slope <= base.slope
            &&& base.slope - old_slope + new_slope <= u128::MAX
        },
    }
}

/// `r` is what the total checkpoint records (see `checkpoint_total`).
pub open spec fn total_checkpoint_post(
    last: Option<Point>,
    last_slope_change: Option<u64>,
    changes: Seq<SlopeChange>,
    cur_period: u64,
    add_voting_power: Option<u128>,
    reduce_power: Option<u128>,
    old_slope: u128,
    new_slope: u128,
    r: TotalCheckpoint,
) -> bool {
            let lsc = (match last_slope_change {
                Some(l) => l,
                None => 0,
            }) as int;
            let add = (match add_voting_power {
                Some(a) => a,
                None => 0,
            }) as int;
            let reduce = (match reduce_power {
                Some(a) => a,
                None => 0,
            }) as int;
            match last {
                None => r.point == (Point {
                    power: add as u128,
                    slope: new_slope,
                    start: cur_period,
                    end: 0,
                }) && r.recalculated@.len() == 0 && r.last_slope_change is None,
                Some(point) => {
                    let base = total_base(point, lsc, cur_period as int, changes);
                    &&& r.point == Point {
                        power: saturating_sub(voting_power_spec(base, cur_period as int) + add, reduce)
                            as u128,
                        slope: (base.slope - old_slope + new_slope) as u128,
                        start: cur_period,
                        end: point.end,
                    }
                    &&& lsc < cur_period ==> r.last_slope_change == Some(cur_period)
                        && r.recalculated@.len() == changes.len() && forall|k: int|
                        0 <= k < changes.len() ==> #[trigger] r.recalculated@[k] == replay(
                        point,
                        changes.take(k + 1),
                    )
                    &&& lsc >= cur_period ==> r.last_slope_change is None && r.recalculated@.len()
                        == 0
                },
            }
        }

/// Brings the total voting power up to the current period: the slope changes scheduled
/// since the last applied one (`changes`, in order) are applied, then `add` is added to
/// the power, `reduce` taken from it (not below zero), and the slope moves from
/// `old_slope` to `new_slope`. With no total point yet, the total starts at `add`.
pub fn checkpoint_total(
    last: Option<Point>,
    last_slope_change: Option<u64>,
    changes: &Vec<SlopeChange>,
    cur_period: u64,
    add_voting_power: Option<u128>,
    reduce_power: Option<u128>,
    old_slope: u128,
    new_slope: u128,
) -> (r: TotalCheckpoint)
    requires
        total_checkpoint_defined(
            last,
            (match last_slope_change {
                Some(l) => l,
                None => 0,
            }) as int,
            cur_period as int,
            changes@,
            (match add_voting_power {
                Some(a) => a,
                None => 0,
            }) as int,
            old_slope as int,
            new_slope as int,
        ),
    ensures
        total_checkpoint_post(
            last,
            last_slope_change,
            changes@,
            cur_period,
            add_voting_power,
            reduce_power,
            old_slope,
            new_slope,
            r,
        ),
{
    let add = match add_voting_power {
        Some(a) => a,
        None => 0,
    };
    let reduce = match reduce_power {
        Some(a) => a,
        None => 0,
    };
    match last {
        None => TotalCheckpoint {
            recalculated: Vec::new(),
            last_slope_change: None,
            point: Point { power: add, slope: new_slope, start: cur_period, end: 0 },
        },
        Some(point) => {
            let lsc = match last_slope_change {
                Some(l) => l,
                None => 0,
            };
            let mut recalculated: Vec<Point> = Vec::new();
            let mut new_last: Option<u64> = None;
            let mut base = point;
            if lsc < cur_period {
                let (_, points, p) = replay_changes(point, changes);
                recalculated = points;
                base = p;
                new_last = Some(cur_period);
            }
            proof {
                lemma_replay_keeps_end(point, changes@);
            }
            let power = calc_voting_power(&base, cur_period) + add;
            let new_power = power.saturating_sub(reduce);
            TotalCheckpoint {
                recalculated,
                last_slope_change: new_last,
                point: Point {
                    power: new_power,
                    slope: base.slope - old_slope + new_slope,
                    start: cur_period,
                    end: base.end,
                },
            }
        },
    }
}


/// `point` carried forward through `changes`, where every change comes no earlier than
/// the point it applies to and takes no more slope than there is; `None` where one does
/// not (the subtraction of slope would underflow there).
pub fn replay_checked(point: Point, changes: &Vec<SlopeChange>) -> (r: Option<Point>)
    ensures
        r is Some <==> replay_defined(point, changes@),
        r matches Some(q) ==> q == replay(point, changes@),
{
    let mut p = point;
    let mut i: usize = 0;
    proof {
        assert(changes@.take(0) =~= Seq::<SlopeChange>::empty());
    }
    while i < changes.len()
        invariant
            i <= changes@.len(),
            p == replay(point, changes@.take(i as int)),
            forall|k: int|
                0 <= k < i ==> {
                    let q = #[trigger] replay(point, changes@.take(k));
                    &&& q.start <= changes@[k].period
                    &&& changes@[k].change <= q.slope
                },
        decreases changes.len() - i,
    {
        let c = changes[i];
        if !(p.start <= c.period && c.change <= p.slope) {
            return None;
        }
        proof {
            assert(changes@.take(i + 1).drop_last() =~= changes@.take(i as int));
        }
        p = Point {
            power: calc_voting_power(&p, c.period),
            start: c.period,
            slope: p.slope - c.change,
            end: p.end,
        };
        i = i + 1;
    }
    proof {
        assert(changes@.take(changes@.len() as int) =~= changes@);
    }
    Some(p)
}

/// The total checkpoint, where its inputs are ones on which it does not panic (see
/// `total_checkpoint_defined`); `None` elsewhere.
pub fn checkpoint_total_checked(
    last: Option<Point>,
    last_slope_change: Option<u64>,
    changes: &Vec<SlopeChange>,
    cur_period: u64,
    add_voting_power: Option<u128>,
    reduce_power: Option<u128>,
    old_slope: u128,
    new_slope: u128,
) -> (r: Option<TotalCheckpoint>)
    ensures
        r is Some <==> total_checkpoint_defined(
            last,
            (match last_slope_change {
                Some(l) => l,
                None => 0,
            }) as int,
            cur_period as int,
            changes@,
            (match add_voting_power {
                Some(a) => a,
                None => 0,
            }) as int,
            old_slope as int,
            new_slope as int,
        ),
        r matches Some(t) ==> total_checkpoint_post(
            last,
            last_slope_change,
            changes@,
            cur_period,
            add_voting_power,
            reduce_power,
            old_slope,
            new_slope,
            t,
        ),
{
    if let Some(point) = last {
        let lsc = match last_slope_change {
            Some(l) => l,
            None => 0,
        };
        let add = match add_voting_power {
            Some(a) => a,
            None => 0,
        };
        let base = if lsc < cur_period {
            match replay_checked(point, changes) {
                Some(q) => q,
                None => {
                    return None;
                },
            }
        } else {
            point
        };
        if base.start > cur_period {
            return None;
        }
        let power = calc_voting_power(&base, cur_period);
        if power > u128::MAX - add || old_slope > base.slope || base.slope - old_slope > u128::MAX
            - new_slope {
            return None;
        }
    }
    Some(
        checkpoint_total(
            last,
            last_slope_change,
            changes,
            cur_period,
            add_voting_power,
            reduce_power,
            old_slope,
            new_slope,
        ),
    )
}

/// The total voting power at `period`, from the last total point at or before it and
/// the slope changes scheduled after that point.
pub open spec fn total_voting_power(last: Option<Point>, changes: Seq<SlopeChange>, period: int) -> int {
    match last {
        None => 0,
        Some(p) => if p.start == period {
            p.power as int
        } else {
            voting_power_spec(replay(p, changes), period)
        },
    }
}

/// A user's voting power at `period`, from the user's last point at or before it.
pub open spec fn user_voting_power(last: Option<Point>, period: int) -> int {
    match last {
        None => 0,
        Some(p) => if p.start == period {
            p.power as int
        } else {
            voting_power_spec(p, period)
        },
    }
}

/// The voting powers of the users whose last points are `users`, at `period`, summed.
pub open spec fn users_voting_power(users: Seq<Point>, period: int) -> int
    decreases users.len(),
{
    if users.len() == 0 {
        0
    } else {
        users_voting_power(users.drop_last(), period) + user_voting_power(Some(users.last()), period)
    }
}

/// The slopes of the users' last points `users`, summed.
pub open spec fn users_slope(users: Seq<Point>) -> int
    decreases users.len(),
{
    if users.len() == 0 {
        0
    } else {
        users_slope(users.drop_last()) + users.last().slope
    }
}

proof fn lemma_sums_update(users: Seq<Point>, i: int, x: Point, period: int)
    requires
        0 <= i < users.len(),
    ensures
        users_voting_power(users.update(i, x), period) == users_voting_power(users, period)
            - user_voting_power(Some(users[i]), period) + user_voting_power(Some(x), period),
        users_slope(users.update(i, x)) == users_slope(users) - users[i].slope + x.slope,
    decreases users.len(),
{
    let u = users.update(i, x);
    if i == users.len() - 1 {
        assert(u.drop_last() =~= users.drop_last());
    } else {
        lemma_sums_update(users.drop_last(), i, x, period);
        assert(u.drop_last() =~= users.drop_last().update(i, x));
    }
}

proof fn lemma_slope_at_least_one(users: Seq<Point>, i: int)
    requires
        0 <= i < users.len(),
    ensures
        users_slope(users) >= users[i].slope,
    decreases users.len(),
{
    if i < users.len() - 1 {
        lemma_slope_at_least_one(users.drop_last(), i);
        assert(users.drop_last()[i] == users[i]);
    }
    lemma_slope_nonnegative(users.drop_last());
}

proof fn lemma_boosted_bounded(amount: int, base: int, dt: int)
    requires
        dt > 0,
    ensures
        boosted(amount, base, dt) matches Some((v, s)) ==> v <= u128::MAX,
{
    if let Some(raw) = checked_mul_uint128_spec(coefficient_spec(dt), amount) {
        let v = base + raw;
        if v <= u128::MAX {
            assert((v / dt) * dt <= v) by (nonlinear_arith)
                requires
                    dt > 0,
            ;
        }
    }
}

proof fn lemma_slope_nonnegative(users: Seq<Point>)
    ensures
        users_slope(users) >= 0,
    decreases users.len(),
{
    if users.len() > 0 {
        lemma_slope_nonnegative(users.drop_last());
    }
}

/// Within one period, where the total voting power and slope are those of the users
/// summed, a user checkpoint and the total checkpoint fed with what it added keep them
/// so: user `i` of `users` (or a new user, where `i` is their number) moves to its new
/// point, and the total voting power at the period is again the users' summed, as is the
/// total slope.
pub proof fn lemma_total_tracks_users(
    users: Seq<Point>,
    i: int,
    total: Point,
    lock: Option<Lock>,
    add_amount: u128,
    new_end: Option<u64>,
    period: u64,
    last_slope_change: Option<u64>,
    changes: Seq<SlopeChange>,
    c: UserCheckpoint,
    t: TotalCheckpoint,
)
    requires
        0 <= i <= users.len(),
        forall|k: int| 0 <= k < users.len() ==> #[trigger] users[k].start == period,
        total.start == period,
        total_base(
            total,
            (match last_slope_change {
                Some(l) => l,
                None => 0,
            }) as int,
            period as int,
            changes,
        ) == total,
        total.power == users_voting_power(users, period as int),
        total.slope == users_slope(users),
        checkpoint_spec(
            if i < users.len() {
                Some(users[i])
            } else {
                None
            },
            lock,
            period as int,
            add_amount as int,
            new_end,
        ) == Ok::<UserCheckpoint, ContractError>(c),
        total_checkpoint_defined(
            Some(total),
            (match last_slope_change {
                Some(l) => l,
                None => 0,
            }) as int,
            period as int,
            changes,
            c.add_voting_power as int,
            c.old_slope as int,
            c.point.slope as int,
        ),
        total_checkpoint_post(
            Some(total),
            last_slope_change,
            changes,
            period,
            Some(c.add_voting_power),
            None,
            c.old_slope,
            c.point.slope,
            t,
        ),
    ensures
        ({
            let after = if i < users.len() {
                users.update(i, c.point)
            } else {
                users.push(c.point)
            };
            &&& forall|k: int| 0 <= k < after.len() ==> #[trigger] after[k].start == period
            &&& total_voting_power(Some(t.point), changes, period as int) == users_voting_power(
                after,
                period as int,
            )
            &&& t.point.power == users_voting_power(after, period as int)
            &&& t.point.slope == users_slope(after)
        }),
{
    let p = period as int;
    assert(voting_power_spec(total, p) == total.power) by {
        let (a, b) = (total.slope as int, p - total.start);
        assert(a * b == 0) by (nonlinear_arith)
            requires
                b == 0,
        ;
    }
    if i < users.len() {
        let u = users[i];
        assert(voting_power_spec(u, p) == u.power) by {
            let (a, b) = (u.slope as int, p - u.start);
            assert(a * b == 0) by (nonlinear_arith)
                requires
                    b == 0,
            ;
        }
        let end = match new_end {
            Some(e) => e,
            None => u.end,
        };
        let dt = saturating_sub(end as int, p);
        if dt != 0 {
            if let Some(l) = lock {
                lemma_boosted_bounded(l.amount as int, 0, dt);
            }
            lemma_boosted_bounded(add_amount as int, u.power as int, dt);
        }
        assert(user_voting_power(Some(u), p) == u.power);
        assert(c.point.power == u.power + c.add_voting_power);
        assert(c.old_slope == u.slope);
        lemma_sums_update(users, i, c.point, p);
        lemma_slope_at_least_one(users, i);
        let after = users.update(i, c.point);
        assert forall|k: int| 0 <= k < after.len() implies #[trigger] after[k].start == period by {
            if k != i {
                assert(after[k] == users[k]);
            }
        }
    } else {
        let after = users.push(c.point);
        assert(after.drop_last() =~= users);
        assert(c.old_slope == 0);
        assert forall|k: int| 0 <= k < after.len() implies #[trigger] after[k].start == period by {
            if k < users.len() {
                assert(after[k] == users[k]);
            }
        }
    }
}

/// The total voting power at `period`: the last total point at or before it, carried
/// forward through the slope changes scheduled after it (`changes`, in order), then
/// decayed to the period.
pub fn get_total_voting_power_at_period(last: Option<Point>, changes: &Vec<SlopeChange>, period: u64) -> (r:
    u128)
    requires
        last matches Some(p) ==> (p.start != period ==> replay_defined(p, changes@) && replay(
            p,
            changes@,
        ).start <= period),
    ensures
        r == total_voting_power(last, changes@, period as int),
{
    let point = match last {
        Some(p) => p,
        None => Point { power: 0, start: period, end: period, slope: 0 },
    };
    if point.start == period {
        point.power
    } else {
        let (_, _, p) = replay_changes(point, changes);
        calc_voting_power(&p, period)
    }
}

/// A user's voting power at `period`, from the user's last point at or before it.
pub fn get_user_voting_power_at_period(last: Option<Point>, period: u64) -> (r: u128)
    requires
        last matches Some(p) ==> p.start <= period,
    ensures
        r == user_voting_power(last, period as int),
{
    match last {
        None => 0,
        Some(p) => if p.start == period {
            p.power
        } else {
            calc_voting_power(&p, period)
        },
    }
}

/// A new lock of `amount` for `time` seconds at `now`: from the current period for the
/// whole weeks of `time`. Refused for a time outside one week to two years, before the
/// epoch, or where the user already has tokens locked.
pub fn create_lock(existing: Option<Lock>, amount: u128, time: u64, now: u64) -> (r: Result<
    Lock,
    ContractError,
>)
    ensures
        !(WEEK <= time <= MAX_LOCK_TIME) ==> r == Err::<Lock, ContractError>(
            ContractError::LockTimeLimitsError,
        ),
        WEEK <= time <= MAX_LOCK_TIME && now < EPOCH_START ==> r == Err::<Lock, ContractError>(
            ContractError::InvalidTime,
        ),
        WEEK <= time <= MAX_LOCK_TIME && now >= EPOCH_START ==> {
            if existing matches Some(l) && l.amount != 0 {
                r == Err::<Lock, ContractError>(ContractError::LockAlreadyExists)
            } else {
                r == Ok::<Lock, ContractError>(
                    Lock {
                        amount,
                        start: period_of(now as int) as u64,
                        end: (period_of(now as int) + time as int / WEEK as int) as u64,
                        last_extend_lock_period: period_of(now as int) as u64,
                    },
                )
            }
        },
{
    match time_limits_check(time) {
        Ok(_) => {},
        Err(e) => {
            return Err(e);
        },
    }
    let block_period = match get_period(now) {
        Ok(p) => p,
        Err(e) => {
            return Err(e);
        },
    };
    let end = block_period + get_periods_count(time);
    match existing {
        Some(l) => {
            if l.amount != 0 {
                return Err(ContractError::LockAlreadyExists);
            }
        },
        None => {},
    }
    Ok(Lock { amount, start: block_period, end, last_extend_lock_period: block_period })
}

/// Adds `amount` to a user's lock at `now`. Refused where the user has no tokens
/// locked or the lock has expired.
pub fn deposit_for(existing: Option<Lock>, amount: u128, now: u64) -> (r: Result<Lock, ContractError>)
    requires
        existing matches Some(l) ==> l.amount + amount <= u128::MAX,
    ensures
        match existing {
            Some(l) => if l.amount == 0 {
                r == Err::<Lock, ContractError>(ContractError::LockDoesNotExist)
            } else if now < EPOCH_START {
                r == Err::<Lock, ContractError>(ContractError::InvalidTime)
            } else if l.end <= period_of(now as int) {
                r == Err::<Lock, ContractError>(ContractError::LockExpired)
            } else {
                r == Ok::<Lock, ContractError>(Lock { amount: (l.amount + amount) as u128, ..l })
            },
            None => r == Err::<Lock, ContractError>(ContractError::LockDoesNotExist),
        },
{
    match existing {
        Some(l) => {
            if l.amount == 0 {
                return Err(ContractError::LockDoesNotExist);
            }
            let cur = match get_period(now) {
                Ok(p) => p,
                Err(e) => {
                    return Err(e);
                },
            };
            if l.end <= cur {
                Err(ContractError::LockExpired)
            } else {
                let mut lock = l;
                lock.amount = lock.amount + amount;
                Ok(lock)
            }
        },
        None => Err(ContractError::LockDoesNotExist),
    }
}

/// What a withdrawal records: the tokens returned, the emptied lock, and the user's
/// point with no power from the current period on.
#[derive(Clone, Copy, Debug, PartialEq, Eq, Structural)]
pub struct Withdrawal {
    pub amount: u128,
    pub lock: Lock,
    pub point: Point,
}

/// Withdraws all of an expired lock at `now`.
pub fn withdraw(existing: Option<Lock>, now: u64) -> (r: Result<Withdrawal, ContractError>)
    ensures
        match existing {
            Some(l) => if l.amount == 0 {
                r == Err::<Withdrawal, ContractError>(ContractError::LockDoesNotExist)
            } else if now < EPOCH_START {
                r == Err::<Withdrawal, ContractError>(ContractError::InvalidTime)
            } else if l.end > period_of(now as int) {
                r == Err::<Withdrawal, ContractError>(ContractError::LockHasNotExpired)
            } else {
                r == Ok::<Withdrawal, ContractError>(
                    Withdrawal {
                        amount: l.amount,
                        lock: Lock { amount: 0, ..l },
                        point: Point {
                            power: 0,
                            start: period_of(now as int) as u64,
                            end: period_of(now as int) as u64,
                            slope: 0,
                        },
                    },
                )
            },
            None => r == Err::<Withdrawal, ContractError>(ContractError::LockDoesNotExist),
        },
{
    let lock = match existing {
        Some(l) => {
            if l.amount == 0 {
                return Err(ContractError::LockDoesNotExist);
            }
            l
        },
        None => {
            return Err(ContractError::LockDoesNotExist);
        },
    };
    let cur_period = match get_period(now) {
        Ok(p) => p,
        Err(e) => {
            return Err(e);
        },
    };
    if lock.end > cur_period {
        return Err(ContractError::LockHasNotExpired);
    }
    Ok(
        Withdrawal {
            amount: lock.amount,
            lock: Lock { amount: 0, ..lock },
            point: Point { power: 0, start: cur_period, end: cur_period, slope: 0 },
        },
    )
}

/// Moves a lock's end later by the whole weeks of `time`, at `now`. Refused where the
/// user has no tokens locked, `time` is outside one week to two years, the lock has
/// expired, or the lock would then end more than two years from now.
pub fn extend_lock_time(existing: Option<Lock>, time: u64, now: u64) -> (r: Result<Lock, ContractError>)
    requires
        existing matches Some(l) ==> EPOCH_START + l.end * WEEK + time <= u64::MAX,
        existing matches Some(l) ==> (l.amount != 0 && WEEK <= time <= MAX_LOCK_TIME && now
            >= EPOCH_START && l.end > period_of(now as int) ==> EPOCH_START + l.end * WEEK + time
            >= now),
    ensures
        match existing {
            None => r == Err::<Lock, ContractError>(ContractError::LockDoesNotExist),
            Some(l) => if l.amount == 0 {
                r == Err::<Lock, ContractError>(ContractError::LockDoesNotExist)
            } else if !(WEEK <= time <= MAX_LOCK_TIME) {
                r == Err::<Lock, ContractError>(ContractError::LockTimeLimitsError)
            } else if now < EPOCH_START {
                r == Err::<Lock, ContractError>(ContractError::InvalidTime)
            } else if l.end <= period_of(now as int) {
                r == Err::<Lock, ContractError>(ContractError::LockExpired)
            } else if !(WEEK <= EPOCH_START + l.end * WEEK + time - now <= MAX_LOCK_TIME) {
                r == Err::<Lock, ContractError>(ContractError::LockTimeLimitsError)
            } else {
                r == Ok::<Lock, ContractError>(
                    Lock { end: (l.end + time as int / WEEK as int) as u64, ..l },
                )
            },
        },
{
    let mut lock = match existing {
        Some(l) => {
            if l.amount == 0 {
                return Err(ContractError::LockDoesNotExist);
            }
            l
        },
        None => {
            return Err(ContractError::LockDoesNotExist);
        },
    };
    match time_limits_check(time) {
        Ok(_) => {},
        Err(e) => {
            return Err(e);
        },
    }
    let cur = match get_period(now) {
        Ok(p) => p,
        Err(e) => {
            return Err(e);
        },
    };
    if lock.end <= cur {
        return Err(ContractError::LockExpired);
    }
    match time_limits_check(EPOCH_START + lock.end * WEEK + time - now) {
        Ok(_) => {},
        Err(e) => {
            return Err(e);
        },
    }
    lock.end = lock.end + get_periods_count(time);
    Ok(lock)
}

/// A lock as a query shows it: its boost over the periods since its time was last
/// extended, and the slope of the user's last point.
pub fn get_user_lock_info(lock: &Lock, slope: u128) -> (r: LockInfoResponse)
    requires
        lock.last_extend_lock_period <= lock.end,
        15 * (lock.end - lock.last_extend_lock_period) <= u64::MAX,
    ensures
        r.amount == lock.amount,
        r.coefficient.atomics == coefficient_spec(lock.end - lock.last_extend_lock_period),
        r.start == lock.start,
        r.end == lock.end,
        r.slope == slope,
{
    LockInfoResponse {
        amount: lock.amount,
        coefficient: calc_coefficient(lock.end - lock.last_extend_lock_period),
        start: lock.start,
        end: lock.end,
        slope,
    }
}

} // verus!
