use side_contracts::voting_escrow::contract::{
    checkpoint, checkpoint_total, create_lock, deposit_for, extend_lock_time,
    checkpoint_total_checked, get_total_voting_power_at_period, get_user_lock_info,
    get_user_voting_power_at_period, instantiate, replay_checked, withdraw, SlopeChange,
};
use side_contracts::voting_escrow::error::ContractError;
use side_contracts::voting_escrow::state::Point;
use side_contracts::voting_escrow::utils::{calc_coefficient, get_period};

const NOW: u64 = 1700161944;

#[test]
fn test_instantiate() {
    let (config, total) =
        instantiate("some-address".to_string(), "deposit-token".to_string(), NOW).unwrap();
    assert_eq!(config.admin, "some-address");
    assert_eq!(config.deposit_token, "deposit-token");
    assert_eq!(total, Point { power: 0, start: get_period(NOW).unwrap(), end: 0, slope: 0 });
}

#[test]
fn lock_lp_flow() {
    let (_, total0) = instantiate("some-address".to_string(), "lp-token".to_string(), NOW).unwrap();
    let period = get_period(NOW).unwrap();
    let no_changes = Vec::new();

    // Minimum lock is 1 week
    let lock = create_lock(None, 1000, 604800, NOW).unwrap();
    let c1 = checkpoint(None, Some(lock), period, 1000, Some(lock.end)).unwrap();
    let t1 = checkpoint_total(
        Some(total0), None, &no_changes, period, Some(c1.add_voting_power), None, c1.old_slope,
        c1.point.slope,
    );
    assert_eq!(get_total_voting_power_at_period(Some(t1.point), &no_changes, period), 1014);
    assert_eq!(get_user_voting_power_at_period(Some(c1.point), period), 1014);
    assert_eq!(get_user_lock_info(&lock, c1.point.slope).amount, 1000);

    // Extend lock time
    let extended = extend_lock_time(Some(lock), 604800, NOW).unwrap();
    let c2 = checkpoint(Some(c1.point), Some(extended), period, 0, Some(extended.end)).unwrap();
    let lock = c2.lock.unwrap_or(extended);
    let t2 = checkpoint_total(
        Some(t1.point), t1.last_slope_change, &no_changes, period, Some(c2.add_voting_power),
        None, c2.old_slope, c2.point.slope,
    );
    assert_eq!(get_total_voting_power_at_period(Some(t2.point), &no_changes, period), 1028);
    assert_eq!(get_user_voting_power_at_period(Some(c2.point), period), 1028);
    assert_eq!(get_user_lock_info(&lock, c2.point.slope).amount, 1000);

    // Deposit more tokens
    let lock = deposit_for(Some(lock), 1000, NOW).unwrap();
    let c3 = checkpoint(Some(c2.point), Some(lock), period, 1000, None).unwrap();
    let t3 = checkpoint_total(
        Some(t2.point), t2.last_slope_change, &no_changes, period, Some(c3.add_voting_power),
        None, c3.old_slope, c3.point.slope,
    );
    assert_eq!(get_total_voting_power_at_period(Some(t3.point), &no_changes, period), 2056);
    assert_eq!(get_user_voting_power_at_period(Some(c3.point), period), 2056);
    assert_eq!(get_user_lock_info(&lock, c3.point.slope).amount, 2000);
}

#[test]
fn withdraw_lock() {
    let lock = create_lock(None, 1000, 604800, NOW).unwrap();
    // Not before the lock expires.
    assert_eq!(withdraw(Some(lock), NOW).unwrap_err(), ContractError::LockHasNotExpired);
    // After it, everything comes back.
    let later = NOW + 2 * 604800;
    let w = withdraw(Some(lock), later).unwrap();
    assert_eq!(w.amount, 1000);
    assert_eq!(w.lock.amount, 0);
    assert_eq!(withdraw(None, later).unwrap_err(), ContractError::LockDoesNotExist);
}

#[test]
fn lock_time_limits() {
    assert_eq!(create_lock(None, 1000, 604799, NOW).unwrap_err(), ContractError::LockTimeLimitsError);
    assert_eq!(create_lock(None, 1000, 604800, 1).unwrap_err(), ContractError::InvalidTime);
    let lock = create_lock(None, 1000, 604800, NOW).unwrap();
    assert_eq!(create_lock(Some(lock), 5, 604800, NOW).unwrap_err(), ContractError::LockAlreadyExists);
    assert!(instantiate("a".to_string(), "b".to_string(), 5).is_err());
}

#[test]
fn voting_power_decays_and_boost_grows_with_time() {
    let point = Point { power: 1000, start: 6, end: 16, slope: 100 };
    assert_eq!(get_user_voting_power_at_period(Some(point), 6), 1000);
    assert_eq!(get_user_voting_power_at_period(Some(point), 8), 800);
    assert_eq!(get_user_voting_power_at_period(Some(point), 16), 0);
    const ONE: u128 = 1_000_000_000_000_000_000;
    assert_eq!(calc_coefficient(0).atomics, ONE);
    assert_eq!(calc_coefficient(104).atomics, 5 * ONE / 2);
    assert!(calc_coefficient(10).atomics < calc_coefficient(20).atomics);
}

#[test]
fn replaying_scheduled_slope_changes() {
    let point = Point { power: 1000, start: 6, end: 16, slope: 100 };
    let changes = vec![SlopeChange { period: 8, change: 40 }];
    let q = replay_checked(point, &changes).unwrap();
    assert_eq!(q, Point { power: 800, start: 8, end: 16, slope: 60 });
    assert_eq!(get_total_voting_power_at_period(Some(point), &changes, 10), 680);
    // A change that takes more slope than there is cannot be replayed.
    assert!(replay_checked(point, &vec![SlopeChange { period: 8, change: 101 }]).is_none());
    // Nor can one before the point.
    assert!(replay_checked(point, &vec![SlopeChange { period: 5, change: 1 }]).is_none());
    let t = checkpoint_total_checked(Some(point), Some(6), &vec![], 6, Some(5), None, 0, 7).unwrap();
    assert_eq!(t.point, Point { power: 1005, start: 6, end: 16, slope: 107 });
    assert!(checkpoint_total_checked(Some(point), Some(6), &vec![], 6, None, None, 101, 0).is_none());
}

#[test]
fn the_total_voting_power_is_the_users_summed() {
    let (_, total0) = instantiate("some-address".to_string(), "lp-token".to_string(), NOW).unwrap();
    let period = get_period(NOW).unwrap();
    let no_changes = Vec::new();

    let lock_a = create_lock(None, 1000, 604800, NOW).unwrap();
    let a = checkpoint(None, Some(lock_a), period, 1000, Some(lock_a.end)).unwrap();
    let t1 = checkpoint_total(
        Some(total0), None, &no_changes, period, Some(a.add_voting_power), None, a.old_slope,
        a.point.slope,
    );
    let lock_b = create_lock(None, 500, 2 * 604800, NOW).unwrap();
    let b = checkpoint(None, Some(lock_b), period, 500, Some(lock_b.end)).unwrap();
    let t2 = checkpoint_total(
        Some(t1.point), t1.last_slope_change, &no_changes, period, Some(b.add_voting_power), None,
        b.old_slope, b.point.slope,
    );
    let power_a = get_user_voting_power_at_period(Some(a.point), period);
    let power_b = get_user_voting_power_at_period(Some(b.point), period);
    assert_eq!(power_a, 1014);
    assert!(power_b > 500);
    assert_eq!(get_total_voting_power_at_period(Some(t2.point), &no_changes, period), power_a + power_b);
    assert_eq!(t2.point.slope, a.point.slope + b.point.slope);

    let lock_a = deposit_for(Some(lock_a), 1000, NOW).unwrap();
    let a2 = checkpoint(Some(a.point), Some(lock_a), period, 1000, None).unwrap();
    let t3 = checkpoint_total(
        Some(t2.point), t2.last_slope_change, &no_changes, period, Some(a2.add_voting_power), None,
        a2.old_slope, a2.point.slope,
    );
    let power_a = get_user_voting_power_at_period(Some(a2.point), period);
    assert_eq!(power_a, 2028);
    assert_eq!(get_total_voting_power_at_period(Some(t3.point), &no_changes, period), power_a + power_b);
    assert_eq!(t3.point.slope, a2.point.slope + b.point.slope);
}
