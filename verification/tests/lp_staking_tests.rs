use side_contracts::decimal::Decimal;
use side_contracts::lp_staking::contract::{
    accumulate_rewards_per_share, calculate_rewards, check_lowercase, claim_rewards, create_pool,
    deposit, get_alloc_point, instantiate, send_pending_rewards, setup_pools, update_config,
    withdraw, Cw20Transfer,
};
use side_contracts::lp_staking::error::ContractError;
use side_contracts::lp_staking::state::{Config, PoolInfo, UserInfo};

const ONE: u128 = 1_000_000_000_000_000_000;

fn config() -> Config {
    let mut cfg = instantiate("admin".to_string(), "lp".to_string(), "reward".to_string(), 10, 0, 5);
    setup_pools(&mut cfg, &"admin".to_string(), vec![("pool-a".to_string(), 3), ("pool-b".to_string(), 1)])
        .unwrap();
    cfg
}

#[test]
fn setup_pools_sums_allocation_points() {
    let cfg = config();
    assert_eq!(cfg.total_alloc_point, 4);
    assert_eq!(get_alloc_point(&cfg.active_pools, &"pool-a".to_string()), 3);
    assert_eq!(get_alloc_point(&cfg.active_pools, &"pool-c".to_string()), 0);
    let mut c = cfg.clone();
    assert_eq!(setup_pools(&mut c, &"other".to_string(), vec![]).unwrap_err(), ContractError::Unauthorized);
    assert_eq!(
        setup_pools(&mut c, &"admin".to_string(), vec![("x".to_string(), 1), ("x".to_string(), 2)]).unwrap_err(),
        ContractError::PoolDuplicate
    );
    assert_eq!(c, cfg);
}

#[test]
fn rewards_are_shared_by_allocation_points() {
    let cfg = config();
    // 4 blocks * 10 per block * 3 of 4 points
    assert_eq!(calculate_rewards(4, 3, &cfg).unwrap(), 30);
    assert_eq!(calculate_rewards(u64::MAX, u128::MAX, &cfg).unwrap_err(), ContractError::Overflow);
}

#[test]
fn staking_accrues_and_pays_rewards() {
    let cfg = config();
    let lp = "pool-a".to_string();
    let alice = "alice".to_string();
    let mut pool = create_pool(2, &cfg);
    assert_eq!(pool.last_reward_block, 5);
    let mut user = UserInfo::empty();

    // Nothing staked yet: nothing to pay.
    assert_eq!(deposit(5, &lp, &alice, 100, &mut pool, &mut user, &cfg).unwrap(), None);
    assert_eq!(user.amount, 100);
    assert_eq!(pool.total_supply, 100);

    // Four blocks later: 30 tokens accrue to the pool, all of it alice's.
    let mut p2 = pool;
    accumulate_rewards_per_share(9, &lp, &mut p2, &cfg).unwrap();
    assert_eq!(p2.reward_global_index, Decimal { atomics: 30 * ONE / 100 });
    assert_eq!(p2.last_reward_block, 9);

    let paid = claim_rewards(9, &lp, &alice, &mut pool, &mut user, &cfg).unwrap();
    assert_eq!(paid, Some(Cw20Transfer { token: "reward".to_string(), recipient: alice.clone(), amount: 30 }));
    assert_eq!(user.reward_user_index, pool.reward_global_index);
    // Claiming again at the same block pays nothing.
    assert_eq!(claim_rewards(9, &lp, &alice, &mut pool, &mut user, &cfg).unwrap(), None);

    let (rewards, back) = withdraw(9, &lp, &alice, 40, &mut pool, &mut user, &cfg).unwrap();
    assert_eq!(rewards, None);
    assert_eq!(back, Some(Cw20Transfer { token: lp.clone(), recipient: alice.clone(), amount: 40 }));
    assert_eq!(user.amount, 60);
    assert_eq!(
        withdraw(9, &lp, &alice, 61, &mut pool, &mut user, &cfg).unwrap_err(),
        ContractError::BalanceTooSmall
    );
}

#[test]
fn pending_rewards_follow_the_index() {
    let cfg = config();
    let pool = PoolInfo {
        last_reward_block: 0,
        has_asset_rewards: false,
        reward_global_index: Decimal { atomics: 3 * ONE / 2 },
        total_supply: 10,
    };
    let user = UserInfo { amount: 4, reward_user_index: Decimal { atomics: ONE } };
    let t = send_pending_rewards(&cfg, &pool, &user, &"bob".to_string()).unwrap();
    assert_eq!(t.amount, 2);
    assert_eq!(send_pending_rewards(&cfg, &pool, &UserInfo::empty(), &"bob".to_string()), None);
}

#[test]
fn config_changes_need_the_admin() {
    let mut cfg = config();
    assert_eq!(update_config(&mut cfg, &"x".to_string(), "r2".to_string()).unwrap_err(), ContractError::Unauthorized);
    update_config(&mut cfg, &"admin".to_string(), "r2".to_string()).unwrap();
    assert_eq!(cfg.reward_token, "r2");
    assert!(check_lowercase(&"side1abc".to_string()).is_ok());
    assert_eq!(check_lowercase(&"Side1abc".to_string()).unwrap_err(), ContractError::NotLowercase);
}
