use side_contracts::staking::deposit::Delegation;
use side_contracts::staking::error::ContractError;
use side_contracts::staking::state::State;
use side_contracts::staking::utils::rate_div_whole;
use side_contracts::staking::validator_set::{Validator, ValidatorSet};
use side_contracts::staking::window::{advance_window, close_window, gather_user_amounts, mature_windows};
use side_contracts::staking::window_manager::{OngoingWithdrawWindow, QueueWindow, WindowManager};

fn v(address: &str, staked: u128) -> Validator {
    Validator { address: address.to_string(), staked }
}

fn set() -> ValidatorSet {
    ValidatorSet { validators: vec![v("A", 300), v("B", 200), v("C", 100)] }
}

fn state() -> State {
    State {
        to_deposit: 10,
        lsside_backing: 1000,
        not_redeemed: 20,
        lsside_under_withdraw: 200,
        side_under_withdraw: 200,
        lsside_to_burn: 0,
    }
}

fn ongoing(id: u64, mature: u64, amount: u128) -> OngoingWithdrawWindow {
    OngoingWithdrawWindow { id, time_to_mature_window: mature, total_side: amount, total_lsside: amount }
}

fn windows() -> WindowManager {
    WindowManager {
        time_to_close_window: 10,
        queue_window: QueueWindow { id: 3, total_lsside: 60 },
        ongoing_windows: vec![ongoing(1, 50, 100), ongoing(2, 500, 40)],
    }
}

fn admin() -> String {
    "admin".to_string()
}

fn token() -> Option<String> {
    Some("lsside".to_string())
}

#[test]
fn advancing_the_window_is_gated() {
    let one = rate_div_whole(1, 1).unwrap();
    let users = vec![];
    let run = |paused: bool, sender: &str, now: u64| {
        let mut st = state();
        let mut wm = windows();
        let mut s = set();
        advance_window(
            paused, &sender.to_string(), &admin(), &token(), &mut st, &mut wm, &mut s, one, 0, now,
            1000, 200, &vec![], 135, &users, 0,
        )
    };
    assert_eq!(run(true, "admin", 100).unwrap_err(), ContractError::Paused);
    assert_eq!(run(false, "someone", 100).unwrap_err(), ContractError::Unauthorized);
    assert_eq!(run(false, "admin", 9).unwrap_err(), ContractError::WindowNotReady);
}

#[test]
fn closing_a_window_unbonds_burns_and_opens_the_next() {
    let one = rate_div_whole(1, 1).unwrap();
    let mut st = state();
    let mut wm = windows();
    let mut s = set();
    let c = close_window(&mut st, &mut wm, &mut s, one, 5, 100, 1000, 200, &vec![20, 40]).unwrap();
    assert_eq!(c.withdrawn, 60);
    assert_eq!(c.burn, Some(60));
    assert_eq!(c.undelegations, vec![Delegation { validator: "A".to_string(), amount: 60 }]);
    assert_eq!(c.user_worths, vec![20, 40]);
    assert_eq!(s.validators, vec![v("A", 240), v("B", 200), v("C", 100)]);
    assert_eq!(st.side_under_withdraw, 260);
    assert_eq!(st.lsside_under_withdraw, 260);
    assert_eq!(st.lsside_backing, 1000 - 60 + 5);
    assert_eq!(st.to_deposit, 15);
    assert_eq!(wm.queue_window, QueueWindow { id: 4, total_lsside: 0 });
    assert_eq!(wm.time_to_close_window, 300);
    assert_eq!(wm.ongoing_windows, vec![ongoing(1, 50, 100), ongoing(2, 500, 40), ongoing(3, 1100, 60)]);
}

#[test]
fn closing_a_window_needs_a_validator() {
    let one = rate_div_whole(1, 1).unwrap();
    let mut st = state();
    let mut wm = windows();
    let mut s = ValidatorSet { validators: vec![] };
    assert_eq!(
        close_window(&mut st, &mut wm, &mut s, one, 0, 100, 1000, 200, &vec![]).unwrap_err(),
        ContractError::EmptyValidatorSet
    );
}

#[test]
fn a_whole_advance_settles_the_matured_window() {
    let one = rate_div_whole(1, 1).unwrap();
    let mut st = state();
    let mut wm = windows();
    let mut s = set();
    let users = vec![(Some(5), 30), (None, 70)];
    let a = advance_window(
        false, &admin(), &admin(), &token(), &mut st, &mut wm, &mut s, one, 5, 100, 1000, 200,
        &vec![20, 40], 135, &users, 1000,
    )
    .unwrap();
    assert_eq!(a.close.withdrawn, 60);
    assert_eq!(a.burn_contract, token());
    assert_eq!(a.matured.windows, vec![ongoing(1, 50, 100)]);
    assert_eq!(a.matured.claimed, 100);
    assert_eq!(a.matured.user_claimables, vec![35, 70]);
    assert_eq!(a.matured.claimable_total, 1100);
    assert_eq!(wm.ongoing_windows, vec![ongoing(2, 500, 40), ongoing(3, 1100, 60)]);
    assert_eq!(wm.queue_window, QueueWindow { id: 4, total_lsside: 0 });
    assert_eq!(
        st,
        State {
            to_deposit: 15,
            lsside_backing: 945,
            not_redeemed: 120,
            lsside_under_withdraw: 160,
            side_under_withdraw: 160,
            lsside_to_burn: 0,
        }
    );
}

#[test]
fn a_partly_paid_window_pays_users_their_share() {
    let one = rate_div_whole(1, 1).unwrap();
    let mut st = state();
    let mut wm = windows();
    let mut s = set();
    let users = vec![(Some(5), 30), (None, 70)];
    let a = advance_window(
        false, &admin(), &admin(), &token(), &mut st, &mut wm, &mut s, one, 5, 100, 1000, 200,
        &vec![], 127, &users, 1000,
    )
    .unwrap();
    assert_eq!(a.matured.claimed, 92);
    assert_eq!(a.matured.ratio, rate_div_whole(92, 100));
    assert_eq!(a.matured.user_claimables, vec![27 + 5, 64]);
    assert_eq!(a.matured.claimable_total, 1092);
    assert_eq!(st.not_redeemed, 20 + 92);
}

#[test]
fn an_advance_is_refused_when_too_little_arrived_or_the_token_is_missing() {
    let one = rate_div_whole(1, 1).unwrap();
    let users = vec![(None, 100)];
    let mut st = state();
    let mut wm = windows();
    let mut s = set();
    assert_eq!(
        advance_window(
            false, &admin(), &admin(), &token(), &mut st, &mut wm, &mut s, one, 5, 100, 1000, 200,
            &vec![], 110, &users, 0,
        )
        .unwrap_err(),
        ContractError::ClaimNotProcessed
    );
    let mut st = state();
    let mut wm = windows();
    let mut s = set();
    assert_eq!(
        advance_window(
            false, &admin(), &admin(), &None, &mut st, &mut wm, &mut s, one, 5, 100, 1000, 200,
            &vec![], 135, &users, 0,
        )
        .unwrap_err(),
        ContractError::TokenNotRegistered
    );
}

#[test]
fn nothing_matured_leaves_the_accounts_alone() {
    let mut st = state();
    let mut wm = windows();
    let m = mature_windows(&mut st, &mut wm, 40, 0, &vec![], 7).unwrap();
    assert_eq!(m.claimed, 0);
    assert_eq!(m.ratio, None);
    assert!(m.windows.is_empty());
    assert_eq!(m.claimable_total, 7);
    assert_eq!(st, state());
    assert_eq!(wm, windows());
}

#[test]
fn the_amounts_under_withdraw_follow_the_windows() {
    let one = rate_div_whole(1, 1).unwrap();
    let mut st = State { side_under_withdraw: 140, lsside_under_withdraw: 140, ..state() };
    let mut wm = windows();
    let mut s = set();
    let users = vec![(None, 100)];
    advance_window(
        false, &admin(), &admin(), &token(), &mut st, &mut wm, &mut s, one, 0, 100, 1000, 200,
        &vec![], 135, &users, 0,
    )
    .unwrap();
    let side: u128 = wm.ongoing_windows.iter().map(|w| w.total_side).sum();
    let lsside: u128 = wm.ongoing_windows.iter().map(|w| w.total_lsside).sum();
    assert_eq!(side, 100);
    assert_eq!(st.side_under_withdraw, side);
    assert_eq!(st.lsside_under_withdraw, lsside);
}

#[test]
fn matured_amounts_are_gathered_by_user() {
    let entries = vec![
        ("bob".to_string(), 10),
        ("ann".to_string(), 5),
        ("bob".to_string(), 7),
        ("cid".to_string(), 0),
        ("ann".to_string(), 1),
    ];
    assert_eq!(
        gather_user_amounts(&entries),
        vec![("bob".to_string(), 17), ("ann".to_string(), 6), ("cid".to_string(), 0)]
    );
    assert!(gather_user_amounts(&vec![]).is_empty());
}
