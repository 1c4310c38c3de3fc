use side_contracts::coin::Coin;
use side_contracts::ics101::contract::{remove_pool, set_log_address, swap};
use side_contracts::ics101::error::ContractError;
use side_contracts::ics101::market::{
    InterchainLiquidityPool, InterchainMarketMaker, PoolAsset, PoolSide, PoolStatus,
};
use side_contracts::ics101::interchainswap_handler::{
    on_received_cancel_pool, on_received_make_multi_deposit,
};
use side_contracts::ics101::msg::{
    DepositAsset, MsgMakeMultiAssetDepositRequest, MsgSwapRequest, SwapMsgType,
};
use side_contracts::ics101::types::OrderStatus;
use side_contracts::ics101::utils::{enforce_order_and_version, ChannelError, ChannelOrder};

fn coin(denom: &str, amount: u128) -> Coin {
    Coin { denom: denom.to_string(), amount }
}

fn pool() -> InterchainLiquidityPool {
    InterchainLiquidityPool {
        assets: vec![
            PoolAsset { side: PoolSide::SOURCE, balance: coin("aside", 1_000_000), weight: 50, decimal: 6 },
            PoolAsset { side: PoolSide::DESTINATION, balance: coin("uatom", 1_000_000), weight: 50, decimal: 6 },
        ],
        counter_party_channel: "channel-1".to_string(),
        counter_party_port: "port".to_string(),
        destination_creator: "taker".to_string(),
        destination_chain_id: "cosmoshub".to_string(),
        id: "pool1".to_string(),
        source_chain_id: "side".to_string(),
        source_creator: "maker".to_string(),
        status: PoolStatus::Active,
        supply: coin("pool1", 2_000_000),
        swap_fee: 30,
        pool_price: 0,
    }
}

#[test]
fn adding_then_taking_an_asset_restores_the_pool() {
    let mut p = pool();
    p.add_asset(coin("aside", 500)).unwrap();
    assert_eq!(p.assets[0].balance.amount, 1_000_500);
    p.subtract_asset(coin("aside", 500)).unwrap();
    assert_eq!(p, pool());
    assert_eq!(p.add_asset(coin("uosmo", 1)).unwrap_err(), ContractError::AssetNotFound);
}

#[test]
fn assets_are_found_by_denomination_and_side() {
    let p = pool();
    assert_eq!(p.find_asset_by_denom("uatom").unwrap().side, PoolSide::DESTINATION);
    assert!(p.find_asset_by_denom("uosmo").is_err());
    assert_eq!(p.find_asset_by_side(PoolSide::SOURCE).unwrap().balance.denom, "aside");
}

#[test]
fn swap_returns_about_the_fee_less_amount() {
    let amm = InterchainMarketMaker::new(&pool(), 30);
    let out = amm.compute_swap(coin("aside", 1000), "uatom").unwrap();
    assert_eq!(out.denom, "uatom");
    assert!(995 <= out.amount && out.amount <= 997, "{}", out.amount);
}

#[test]
fn withdraw_pays_each_asset_its_share() {
    let amm = InterchainMarketMaker::new(&pool(), 30);
    let out = amm.multi_asset_withdraw(coin("pool1", 1_000_000)).unwrap();
    let amounts: Vec<u128> = out.iter().map(|c| c.amount).collect();
    assert_eq!(amounts, vec![500_000, 500_000]);
    assert!(amounts.iter().all(|a| *a <= 1_000_000));
}

#[test]
fn swaps_below_the_slippage_bound_are_refused() {
    let msg = MsgSwapRequest {
        swap_type: SwapMsgType::LEFT,
        sender: "trader".to_string(),
        pool_id: "pool1".to_string(),
        token_in: coin("aside", 1000),
        token_out: coin("uatom", 2000),
        slippage: 0,
        recipient: "trader".to_string(),
        timeout_height: 0,
        timeout_timestamp: 0,
    };
    let funds = vec![coin("aside", 1000)];
    assert_eq!(swap(Some(pool()), &msg, &funds, 0).unwrap_err(), ContractError::FailedOnSwapReceived);
    assert_eq!(swap(None, &msg, &funds, 0).unwrap_err(), ContractError::PoolNotFound);
    assert_eq!(swap(Some(pool()), &msg, &vec![], 0).unwrap_err(), ContractError::FundsMismatch);
}

#[test]
fn a_two_sided_deposit_opens_a_pending_order() {
    let msg = MsgMakeMultiAssetDepositRequest {
        pool_id: "pool1".to_string(),
        deposits: vec![
            DepositAsset { sender: "maker".to_string(), balance: coin("aside", 10) },
            DepositAsset { sender: "taker".to_string(), balance: coin("uatom", 20) },
        ],
        chain_id: "side".to_string(),
        timeout_height: 0,
        timeout_timestamp: 0,
    };
    let (order, counter) = on_received_make_multi_deposit(true, 4, &msg, "7".to_string(), 99).unwrap();
    assert_eq!(counter, 5);
    assert_eq!((order.source_maker.as_str(), order.destination_taker.as_str()), ("maker", "taker"));
    assert_eq!(order.deposits, vec![coin("aside", 10), coin("uatom", 20)]);
    assert_eq!(order.status, OrderStatus::Pending);
    assert_eq!(order.created_at, 99);
    assert_eq!(
        on_received_make_multi_deposit(false, 4, &msg, "7".to_string(), 99).unwrap_err(),
        ContractError::PoolNotFound
    );
}

#[test]
fn pool_channels_must_speak_the_version_unordered() {
    let v = "ics101-1".to_string();
    assert!(enforce_order_and_version(&v, ChannelOrder::Unordered, Some(&v)).is_ok());
    assert_eq!(
        enforce_order_and_version(&"ics100-1".to_string(), ChannelOrder::Unordered, None).unwrap_err(),
        ChannelError::InvalidIbcVersion { version: "ics100-1".to_string() }
    );
    assert_eq!(enforce_order_and_version(&v, ChannelOrder::Ordered, None).unwrap_err(), ChannelError::OnlyOrderedChannel);
}

#[test]
fn admin_requests_need_the_admin() {
    let admin = "admin".to_string();
    assert!(remove_pool(&admin, &admin).is_ok());
    assert_eq!(remove_pool(&"x".to_string(), &admin).unwrap_err(), ContractError::NotAllowed);
    assert_eq!(
        set_log_address(&admin, &admin, "pool1".to_string(), "log".to_string()).unwrap(),
        ("pool1".to_string(), "log".to_string())
    );
    assert_eq!(
        set_log_address(&"x".to_string(), &admin, "pool1".to_string(), "log".to_string()).unwrap_err(),
        ContractError::NotAllowed
    );
}

#[test]
fn a_received_cancel_marks_the_pool_cancelled() {
    assert_eq!(on_received_cancel_pool(None).unwrap_err(), ContractError::PoolNotFound);
    let cancelled = on_received_cancel_pool(Some(pool())).unwrap();
    assert_eq!(cancelled.status, PoolStatus::Cancelled);
    assert_eq!(cancelled.assets, pool().assets);
    assert_eq!(cancelled.supply, pool().supply);
}
