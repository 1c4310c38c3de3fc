use side_contracts::coin::Coin;
use side_contracts::staking::admin::{
    lsside_exchange_rate, try_kill_switch_unbond, try_pause, try_redelegate,
    try_remove_validator, try_unpause, try_vote, Redelegation, VoteOption,
};
use side_contracts::staking::balance::{
    get_onchain_balance_with_rewards, get_total_onchain_balance, rebalance_slash,
};
use side_contracts::staking::deposit::{distribute_deposit, try_claim_stake, Delegation};
use side_contracts::staking::error::ContractError;
use side_contracts::staking::killswitch::KillSwitch;
use side_contracts::staking::state::State;
use side_contracts::staking::tokens::{is_valid_name, is_valid_symbol, TokenInitMsg};
use side_contracts::staking::utils::{calc_fee, calc_threshold, calc_withdraw, dec_to_uint, rate_div_whole};
use side_contracts::staking::validator_set::{Validator, ValidatorSet};
use side_contracts::staking::withdraw::{
    release_tokens, try_withdraw, withdraw_gate, WithdrawOutcome, WithdrawPath, MINIMUM_WITHDRAW,
};
use side_contracts::staking::window_manager::{QueueWindow, WindowManager};

fn v(address: &str, staked: u128) -> Validator {
    Validator { address: address.to_string(), staked }
}

fn set() -> ValidatorSet {
    ValidatorSet { validators: vec![v("A", 300), v("B", 200), v("C", 100)] }
}

fn empty_state() -> State {
    State {
        to_deposit: 0,
        lsside_backing: 0,
        not_redeemed: 0,
        lsside_under_withdraw: 0,
        side_under_withdraw: 0,
        lsside_to_burn: 0,
    }
}

#[test]
fn validator_set_operations() {
    let mut s = set();
    assert_eq!(s.exists_at("B"), Some(1));
    assert_eq!(s.exists_at("Z"), None);
    assert_eq!(s.total_staked(), 600);
    assert_eq!(s.stake_with_least(50).unwrap(), "C");
    assert_eq!(s.validators[2].staked, 150);
    assert_eq!(s.unbond_from_largest(100).unwrap(), "A");
    assert_eq!(s.validators[0].staked, 200);
    s.rebalance();
    assert!(s.validators.windows(2).all(|w| w[0].staked >= w[1].staked));
    assert_eq!(s.remove("B", false).unwrap_err(), ContractError::ValidatorHasStake);
    assert_eq!(s.remove("B", true).unwrap(), Some(v("B", 200)));
    assert_eq!(s.remove("B", true).unwrap_err(), ContractError::ValidatorNotFound);
}

#[test]
fn unbond_all_lists_the_validators_with_stake() {
    let mut s = set();
    s.validators.push(v("D", 0));
    assert_eq!(
        s.unbond_all(),
        vec![
            Delegation { validator: "A".to_string(), amount: 300 },
            Delegation { validator: "B".to_string(), amount: 200 },
            Delegation { validator: "C".to_string(), amount: 100 },
        ]
    );
    assert_eq!(s.withdraw_rewards_messages(), vec!["A".to_string(), "B".to_string(), "C".to_string()]);
}

#[test]
fn deposits_split_or_go_to_the_least_staked() {
    let mut s = set();
    let d = distribute_deposit(&mut s, 90).unwrap();
    assert_eq!(d, vec![Delegation { validator: "C".to_string(), amount: 90 }]);
    let mut s = set();
    let d = distribute_deposit(&mut s, 301).unwrap();
    let amounts: Vec<u128> = d.iter().map(|x| x.amount).collect();
    assert_eq!(amounts, vec![100, 100, 101]);
    assert_eq!(s.total_staked(), 901);
    let mut empty = ValidatorSet { validators: vec![] };
    assert_eq!(distribute_deposit(&mut empty, 5).unwrap_err(), ContractError::EmptyValidatorSet);
}

#[test]
fn claim_and_restake() {
    let mut s = set();
    let mut state = State { to_deposit: 50, lsside_backing: 650, lsside_to_burn: 7, ..empty_state() };
    let plan = try_claim_stake(false, &mut state, &mut s, 1000, 1000).unwrap();
    // fee = 1000 * 1000 / 100000 = 10
    assert_eq!(plan.deposit_amount, 50 + 990);
    assert_eq!(plan.burn, 7);
    assert_eq!(plan.dev_payment, 9);
    assert_eq!(state.to_deposit, 0);
    assert_eq!(state.lsside_backing, 650 + 990);
    assert_eq!(s.total_staked(), 600 + 1040);
    assert_eq!(try_claim_stake(true, &mut state, &mut s, 0, 0).unwrap_err(), ContractError::Paused);
}

#[test]
fn fees_thresholds_and_rates() {
    assert_eq!(calc_fee(1000, 100), 1);
    assert_eq!(calc_fee(u128::MAX, 100_000), u128::MAX / 100_000);
    assert_eq!(calc_threshold(600, 3), 200);
    assert_eq!(calc_threshold(600, 0), 0);
    let two = rate_div_whole(2000, 1000).unwrap();
    assert_eq!(calc_withdraw(10, two), 20);
}

#[test]
fn withdrawals_follow_the_kill_switch() {
    assert_eq!(withdraw_gate(0, MINIMUM_WITHDRAW).unwrap(), WithdrawPath::Queue);
    assert_eq!(withdraw_gate(0, MINIMUM_WITHDRAW - 1).unwrap_err(), ContractError::WithdrawBelowMinimum);
    assert_eq!(withdraw_gate(1, MINIMUM_WITHDRAW).unwrap_err(), ContractError::WithdrawalsFrozen);
    assert_eq!(withdraw_gate(2, 1).unwrap(), WithdrawPath::Release);
    assert_eq!(withdraw_gate(3, 1).unwrap_err(), ContractError::InvalidKillSwitch);
    assert_eq!(KillSwitch::try_from(1).unwrap().into_u8(), 1);
}

#[test]
fn withdrawals_queue_in_the_open_window() {
    let mut wm = WindowManager {
        time_to_close_window: 10,
        queue_window: QueueWindow { id: 0, total_lsside: 100 },
        ongoing_windows: vec![],
    };
    assert_eq!(wm.add_user_amount_to_active_window(Some(40), 60), 100);
    assert_eq!(wm.queue_window.total_lsside, 160);
    assert_eq!(wm.add_user_amount_to_active_window(None, 5), 5);
}

#[test]
fn admin_requests() {
    let admin = "admin".to_string();
    let mut paused = false;
    assert_eq!(try_pause(&mut paused, &"x".to_string(), &admin).unwrap_err(), ContractError::Unauthorized);
    try_pause(&mut paused, &admin, &admin).unwrap();
    assert!(paused);
    assert_eq!(try_vote(paused, &admin, &admin, 3, VoteOption::Yes).unwrap_err(), ContractError::Paused);
    try_unpause(&mut paused, &admin, &admin).unwrap();
    assert_eq!(try_vote(paused, &admin, &admin, 3, VoteOption::No).unwrap(), (3, VoteOption::No));

    let mut s = set();
    let rd = try_remove_validator(&mut s, &admin, &admin, "B", None).unwrap();
    assert_eq!(rd, Some(Redelegation { src_validator: "B".to_string(), dst_validator: "C".to_string(), amount: 200 }));
    let mut left: Vec<(String, u128)> = s.validators.iter().map(|x| (x.address.clone(), x.staked)).collect();
    left.sort();
    assert_eq!(left, vec![("A".to_string(), 300), ("C".to_string(), 300)]);

    let mut s = set();
    let mut state = empty_state();
    let rd = try_redelegate(&mut s, &mut state, &admin, &admin, "A", "C", 5).unwrap();
    assert_eq!(rd.amount, 300);
    assert_eq!(s.validators, vec![v("B", 200), v("C", 400)]);
    assert_eq!((state.to_deposit, state.lsside_backing), (5, 5));
    let mut s = set();
    assert_eq!(
        try_redelegate(&mut s, &mut state, &admin, &admin, "A", "Z", 0).unwrap_err(),
        ContractError::ValidatorNotFound
    );

    let mut s = set();
    let mut kill_switch = 0u8;
    let (total, tokens, undelegations) =
        try_kill_switch_unbond(&mut s, &mut kill_switch, &admin, &admin, true, 2000, 1100, 100).unwrap();
    assert_eq!((total, tokens, undelegations.len()), (2000, 1000, 3));
    assert_eq!(kill_switch, 1);
    assert!(s.validators.iter().all(|x| x.staked == 0));
}

#[test]
fn exchange_rate_from_live_or_frozen_amounts() {
    let live = lsside_exchange_rate(0, true, 2000, 1100, 100, 1, 1).unwrap();
    assert_eq!(calc_withdraw(10, live), 20);
    let frozen = lsside_exchange_rate(1, true, 2000, 1100, 100, 3000, 1000).unwrap();
    assert_eq!(calc_withdraw(10, frozen), 30);
    let one = lsside_exchange_rate(0, true, 0, 1100, 100, 1, 1).unwrap();
    assert_eq!(calc_withdraw(10, one), 10);
    assert_eq!(lsside_exchange_rate(0, false, 1, 1, 0, 1, 1).unwrap_err(), ContractError::TokenNotRegistered);
    assert_eq!(lsside_exchange_rate(7, true, 1, 1, 0, 1, 1).unwrap_err(), ContractError::InvalidKillSwitch);
}

#[test]
fn balances_and_slashing() {
    assert_eq!(get_onchain_balance_with_rewards(1000, 200, 1000), 1198);
    assert_eq!(get_total_onchain_balance(&set(), 50), 650);
    let mut s = set();
    rebalance_slash(&mut s, &vec![0, 250, 400]);
    assert_eq!(s.validators, vec![v("C", 400), v("A", 300), v("B", 250)]);
}

#[test]
fn deposit_coins_are_plain_coins() {
    let c = Coin::new("uside".to_string(), 5);
    assert_eq!(c.duplicate(), c);
}

#[test]
fn token_parameters_are_checked() {
    assert!(is_valid_name("lsSIDE token"));
    assert!(!is_valid_name("ab"));
    assert!(is_valid_symbol("ls-SIDE"));
    assert!(!is_valid_symbol("lsSIDE1"));
    assert!(!is_valid_symbol("ab"));
    assert!(!is_valid_symbol("abcdefghijklm"));
    let msg = TokenInitMsg {
        name: "Liquid SIDE".to_string(),
        symbol: "lsSIDE".to_string(),
        decimals: 6,
        initial_balances: vec![],
        minter: Some("staking".to_string()),
        mint_cap: Some(1000),
    };
    assert!(msg.validate().is_ok());
    assert_eq!(msg.get_cap(), Some(1000));
    let uncapped = TokenInitMsg { minter: None, ..msg.clone() };
    assert_eq!(uncapped.get_cap(), None);
    let bad_symbol = TokenInitMsg { symbol: "ls$".to_string(), ..msg.clone() };
    assert_eq!(bad_symbol.validate().unwrap_err(), ContractError::InvalidTokenSymbol);
    let bad_name = TokenInitMsg { name: "x".to_string(), ..msg.clone() };
    assert_eq!(bad_name.validate().unwrap_err(), ContractError::InvalidTokenName);
    let bad_decimals = TokenInitMsg { decimals: 19, ..msg };
    assert_eq!(bad_decimals.validate().unwrap_err(), ContractError::InvalidTokenDecimals);
}

#[test]
fn whole_numbers_are_parsed_from_text() {
    assert_eq!(dec_to_uint("123".to_string()).unwrap(), 123);
    assert_eq!(dec_to_uint("+5".to_string()).unwrap(), 5);
    assert_eq!(dec_to_uint("0.5".to_string()).unwrap_err(), ContractError::NotANumber);
    assert_eq!(dec_to_uint("".to_string()).unwrap_err(), ContractError::NotANumber);
    assert_eq!(dec_to_uint("-1".to_string()).unwrap_err(), ContractError::NotANumber);
    assert_eq!(dec_to_uint("+".to_string()).unwrap_err(), ContractError::NotANumber);
    assert_eq!(dec_to_uint("00042".to_string()).unwrap(), 42);
    assert_eq!(dec_to_uint(u128::MAX.to_string()).unwrap(), u128::MAX);
    assert_eq!(
        dec_to_uint("340282366920938463463374607431768211456".to_string()).unwrap_err(),
        ContractError::NotANumber
    );
    assert_eq!(dec_to_uint("12é".to_string()).unwrap_err(), ContractError::NotANumber);
}

fn windows() -> WindowManager {
    WindowManager {
        time_to_close_window: 10,
        queue_window: QueueWindow { id: 0, total_lsside: 100_000 },
        ongoing_windows: vec![],
    }
}

#[test]
fn a_queued_withdrawal_restakes_the_rewards() {
    let mut wm = windows();
    let mut s = set();
    let mut state = State { to_deposit: 50, lsside_backing: 650, lsside_to_burn: 7, ..empty_state() };
    let out = try_withdraw(0, 20_000, Some(5_000), &mut wm, &mut state, &mut s, 1000, 1000).unwrap();
    match out {
        WithdrawOutcome::Queued(q) => {
            assert_eq!(q.user_amount, 25_000);
            assert_eq!(q.total_amount, 120_000);
            assert_eq!(q.reward_claims, vec!["A".to_string(), "B".to_string(), "C".to_string()]);
            assert_eq!(q.restake.dev_payment, 9);
            assert_eq!(q.restake.deposit_amount, 50 + 990);
        }
        WithdrawOutcome::Release => panic!("queued withdrawal released"),
    }
    assert_eq!(wm.queue_window.total_lsside, 120_000);
    assert_eq!(state.to_deposit, 0);
    assert_eq!(state.lsside_backing, 650 + 990);
    assert_eq!(state.lsside_to_burn, 7);
    assert_eq!(s.total_staked(), 600 + 1040);
}

#[test]
fn withdrawals_that_do_not_queue_change_nothing() {
    let mut wm = windows();
    let mut s = set();
    let mut state = State { to_deposit: 50, lsside_backing: 650, ..empty_state() };
    assert_eq!(
        try_withdraw(2, 20_000, None, &mut wm, &mut state, &mut s, 1000, 1000).unwrap(),
        WithdrawOutcome::Release
    );
    assert_eq!(
        try_withdraw(0, 10, None, &mut wm, &mut state, &mut s, 1000, 1000).unwrap_err(),
        ContractError::WithdrawBelowMinimum
    );
    assert_eq!(
        try_withdraw(1, 20_000, None, &mut wm, &mut state, &mut s, 1000, 1000).unwrap_err(),
        ContractError::WithdrawalsFrozen
    );
    assert_eq!(wm, windows());
    assert_eq!(state.lsside_backing, 650);
    assert_eq!(s, set());
    let mut empty = ValidatorSet { validators: vec![] };
    assert_eq!(
        try_withdraw(0, 20_000, None, &mut wm, &mut state, &mut empty, 1000, 1000).unwrap_err(),
        ContractError::EmptyValidatorSet
    );
}

#[test]
fn released_withdrawals_pay_at_most_the_balance() {
    let two = rate_div_whole(2000, 1000).unwrap();
    assert_eq!(release_tokens(10, two, 100), 20);
    assert_eq!(release_tokens(10, two, 15), 15);
}
