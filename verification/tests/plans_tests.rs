use side_contracts::coin::Coin;
use side_contracts::decimal::{Decimal, MathError};
use side_contracts::ics100::atomic_swap_handler::take_refusal;
use side_contracts::ics100::error::ContractError as SwapError;
use side_contracts::ics100::msg::{MakeSwapMsg, TakeSwapMsg};
use side_contracts::ics100::state::{AtomicSwapOrder, Status};
use side_contracts::ics100::utils::{extract_source_channel_for_taker_msg, is_fee_payable, order_path};
use side_contracts::ics101::approx_pow::calculate_pow;
use side_contracts::ics101::contract::{
    cancel_multi_asset_deposit, cancel_pool, make_multi_asset_deposit, make_pool, make_pool_messages,
    multi_asset_withdraw, open_deposit_order, single_asset_deposit, swap, take_pool, LpTransferFrom,
    PacketPlan,
};
use side_contracts::ics101::error::ContractError as PoolError;
use side_contracts::ics101::utils::get_pool_id_with_tokens;
use side_contracts::ics101::market::{InterchainLiquidityPool, PoolAsset, PoolSide, PoolStatus};
use side_contracts::ics101::utils::get_connection_id;
use side_contracts::ics101::msg::{
    DepositAsset, MsgMakeMultiAssetDepositRequest, MsgMakePoolRequest, MsgSingleAssetDepositRequest,
    MsgSwapRequest, SwapMsgType,
};
use side_contracts::ics101::types::{InterchainMessageType, MultiAssetDepositOrder, OrderStatus, StateChange};
use side_contracts::staking::deposit::{try_claim_stake, try_stake_checked, Delegation};
use side_contracts::staking::state::State;
use side_contracts::staking::utils::rate_div_whole;
use side_contracts::staking::validator_set::{Validator, ValidatorSet};
use side_contracts::staking::window::closing_burn;
use side_contracts::staking::window_manager::{QueueWindow, WindowManager};

const ONE: u128 = 1_000_000_000_000_000_000;

fn coin(denom: &str, amount: u128) -> Coin {
    Coin { denom: denom.to_string(), amount }
}

fn empty_state() -> State {
    State {
        to_deposit: 0,
        lsside_backing: 0,
        not_redeemed: 0,
        lsside_under_withdraw: 0,
        side_under_withdraw: 0,
        lsside_to_burn: 0,
    }
}

fn nothing() -> StateChange {
    StateChange {
        in_tokens: None,
        out_tokens: None,
        pool_tokens: None,
        pool_id: None,
        multi_deposit_order_id: None,
        source_chain_id: None,
        shares: None,
    }
}

#[test]
fn integer_powers_square_and_multiply() {
    let two = Decimal { atomics: 2 * ONE };
    assert_eq!(calculate_pow(two, Decimal { atomics: 3 * ONE }, None).unwrap().atomics, 8 * ONE);
    assert_eq!(calculate_pow(two, Decimal { atomics: 0 }, None).unwrap().atomics, ONE);
}

#[test]
fn an_integer_power_whose_last_product_overflows_is_refused() {
    // 2^99 does not fit, though every squaring before the last product does.
    let two = Decimal { atomics: 2 * ONE };
    assert_eq!(calculate_pow(two, Decimal { atomics: 99 * ONE }, None).unwrap_err(), MathError::Overflow);
}

#[test]
fn a_made_pool_instantiates_its_share_token_and_sends_a_packet() {
    let msg = MsgMakePoolRequest {
        source_port: "port".to_string(),
        source_channel: "channel-0".to_string(),
        source_chain_id: "side".to_string(),
        destination_chain_id: "hub".to_string(),
        counterparty_channel: "channel-9".to_string(),
        creator: "maker".to_string(),
        counterparty_creator: "taker".to_string(),
        liquidity: vec![],
        swap_fee: 30,
        timeout_height: 0,
        timeout_timestamp: 0,
    };
    let m = make_pool_messages(&msg, &"pool1".to_string(), 7, &"contract".to_string(), 1_000);
    assert_eq!(m.lp_token.code_id, 7);
    assert_eq!(m.lp_token.reply_id, 2000);
    assert_eq!(m.lp_token.name, "sideLP");
    assert_eq!(m.lp_token.symbol, "sideLP");
    assert_eq!(m.lp_token.decimals, 6);
    assert_eq!(m.lp_token.minter, "contract");
    assert_eq!(
        m.packet,
        PacketPlan {
            channel: "channel-0".to_string(),
            msg_type: InterchainMessageType::MakePool,
            state_change: Some(StateChange { pool_id: Some("pool1".to_string()), ..nothing() }),
            timeout_seconds: 1_600,
        }
    );
}

#[test]
fn a_two_sided_deposit_is_recorded_under_its_keys() {
    let msg = MsgMakeMultiAssetDepositRequest {
        pool_id: "pool1".to_string(),
        deposits: vec![
            DepositAsset { sender: "alice".to_string(), balance: coin("aside", 10) },
            DepositAsset { sender: "bob".to_string(), balance: coin("uatom", 20) },
        ],
        chain_id: "side".to_string(),
        timeout_height: 0,
        timeout_timestamp: 0,
    };
    let pool = InterchainLiquidityPool {
        assets: vec![
            PoolAsset { side: PoolSide::SOURCE, balance: coin("aside", 1000), weight: 50, decimal: 6 },
            PoolAsset { side: PoolSide::DESTINATION, balance: coin("uatom", 1000), weight: 50, decimal: 6 },
        ],
        counter_party_channel: "channel-1".to_string(),
        counter_party_port: "port".to_string(),
        destination_creator: "bob".to_string(),
        destination_chain_id: "hub".to_string(),
        id: "pool1".to_string(),
        source_chain_id: "side".to_string(),
        source_creator: "alice".to_string(),
        status: PoolStatus::Active,
        supply: coin("pool1", 2000),
        swap_fee: 30,
        pool_price: 0,
    };
    let shares = vec![coin("pool1", 10), coin("pool1", 20)];
    let rec = open_deposit_order(&msg, &pool, 4, "42".to_string(), shares.clone(), 77, 100);
    assert_eq!(rec.counter, 5);
    assert_eq!(rec.order.id, "42");
    assert_eq!(rec.order.status, OrderStatus::Pending);
    assert_eq!(rec.order.source_maker, "alice");
    assert_eq!(rec.order.destination_taker, "bob");
    assert_eq!(rec.order.deposits, vec![coin("aside", 10), coin("uatom", 20)]);
    assert_eq!(rec.order.created_at, 77);
    assert_eq!(rec.order_key, "pool1-42");
    assert_eq!(rec.active_key, "alice-pool1-bob");
    assert_eq!(rec.packet.channel, "channel-1");
    assert_eq!(rec.packet.msg_type, InterchainMessageType::MakeMultiDeposit);
    assert_eq!(
        rec.packet.state_change,
        Some(StateChange { pool_tokens: Some(shares), multi_deposit_order_id: Some("42".to_string()), ..nothing() })
    );
    assert_eq!(rec.packet.timeout_seconds, 700);
}

#[test]
fn a_closing_window_burns_what_it_queued() {
    let mut wm = WindowManager {
        time_to_close_window: 0,
        queue_window: QueueWindow { id: 3, total_lsside: 500 },
        ongoing_windows: vec![],
    };
    assert_eq!(closing_burn(&wm), Some(500));
    wm.queue_window.total_lsside = 0;
    assert_eq!(closing_burn(&wm), None);
}

#[test]
fn staking_at_a_rate_that_cannot_divide_changes_nothing() {
    let funds = vec![coin("uside", 2_000_000)];
    let mut state = empty_state();
    let zero = side_contracts::staking::utils::Rate { mantissa: 0, scale: 0 };
    assert_eq!(try_stake_checked(false, 0, &funds, &mut state, zero), None);
    assert_eq!(state, empty_state());
    let one = rate_div_whole(1, 1).unwrap();
    assert_eq!(try_stake_checked(false, 0, &funds, &mut state, one), Some(Ok((2_000_000, 2_000_000))));
    assert_eq!(state.to_deposit, 2_000_000);
}

#[test]
fn restaked_rewards_are_split_over_the_validators() {
    let mut s = ValidatorSet {
        validators: vec![
            Validator { address: "A".to_string(), staked: 300 },
            Validator { address: "B".to_string(), staked: 200 },
            Validator { address: "C".to_string(), staked: 100 },
        ],
    };
    let mut state = State { to_deposit: 50, lsside_backing: 650, ..empty_state() };
    let plan = try_claim_stake(false, &mut state, &mut s, 1000, 1000).unwrap();
    // 1040 over three validators: 346 each, the last also the remainder.
    assert_eq!(
        plan.delegations,
        vec![
            Delegation { validator: "A".to_string(), amount: 346 },
            Delegation { validator: "B".to_string(), amount: 346 },
            Delegation { validator: "C".to_string(), amount: 348 },
        ]
    );
    let stakes: Vec<(String, u128)> = s.validators.iter().map(|v| (v.address.clone(), v.staked)).collect();
    assert_eq!(stakes, vec![("A".to_string(), 646), ("B".to_string(), 546), ("C".to_string(), 448)]);
}

#[test]
fn fees_and_takes_are_checked_by_the_library() {
    assert!(is_fee_payable(1000, 100));
    assert!(!is_fee_payable(u128::MAX, 2));
    assert!(!is_fee_payable(0, 100));
    let order = AtomicSwapOrder {
        id: "o1".to_string(),
        maker: MakeSwapMsg {
            sell_token: coin("aside", 1000),
            buy_token: coin("uatom", 50),
            maker_address: "maker".to_string(),
            maker_receiving_address: "mkr".to_string(),
            desired_taker: "".to_string(),
            take_bids: false,
            min_bid_price: None,
            expiration_timestamp: 0,
        },
        status: Status::Sync,
        taker: None,
        create_timestamp: 0,
        cancel_timestamp: None,
        complete_timestamp: None,
        min_bid_price: None,
    };
    let take = TakeSwapMsg {
        order_id: "o1".to_string(),
        sell_token: coin("uatom", 50),
        taker_address: "t".to_string(),
        taker_receiving_address: "t".to_string(),
    };
    assert_eq!(take_refusal(&order, &take), None);
    let short = TakeSwapMsg { sell_token: coin("uatom", 49), ..take };
    assert_eq!(take_refusal(&order, &short), Some(SwapError::InvalidSellToken));
}

#[test]
fn the_taker_reads_the_destination_channel_back_from_an_order_path() {
    let path = order_path(
        "channel-0".to_string(),
        "swap".to_string(),
        "channel-7".to_string(),
        "swap".to_string(),
        12,
    );
    assert_eq!(extract_source_channel_for_taker_msg(&path).unwrap(), "channel-7");
}

#[test]
fn the_connection_id_ignores_the_order_of_the_chains() {
    let ab = get_connection_id(vec!["a".to_string(), "b".to_string()]);
    let ba = get_connection_id(vec!["b".to_string(), "a".to_string()]);
    assert_eq!(ab, "a/b");
    assert_eq!(ba, ab);
}

fn active_pool() -> InterchainLiquidityPool {
    InterchainLiquidityPool {
        assets: vec![
            PoolAsset { side: PoolSide::SOURCE, balance: coin("aside", 1_000_000), weight: 50, decimal: 6 },
            PoolAsset { side: PoolSide::DESTINATION, balance: coin("uatom", 1_000_000), weight: 50, decimal: 6 },
        ],
        counter_party_channel: "channel-1".to_string(),
        counter_party_port: "port".to_string(),
        destination_creator: "taker".to_string(),
        destination_chain_id: "hub".to_string(),
        id: "pool1".to_string(),
        source_chain_id: "side".to_string(),
        source_creator: "maker".to_string(),
        status: PoolStatus::Active,
        supply: coin("pool1", 2_000_000),
        swap_fee: 30,
        pool_price: 0,
    }
}

fn make_pool_msg() -> MsgMakePoolRequest {
    MsgMakePoolRequest {
        source_port: "port".to_string(),
        source_channel: "channel-0".to_string(),
        source_chain_id: "side".to_string(),
        destination_chain_id: "hub".to_string(),
        counterparty_channel: "channel-9".to_string(),
        creator: "maker".to_string(),
        counterparty_creator: "taker".to_string(),
        liquidity: vec![
            PoolAsset { side: PoolSide::SOURCE, balance: coin("aside", 100), weight: 50, decimal: 6 },
            PoolAsset { side: PoolSide::DESTINATION, balance: coin("uatom", 100), weight: 50, decimal: 6 },
        ],
        swap_fee: 30,
        timeout_height: 0,
        timeout_timestamp: 0,
    }
}

#[test]
fn a_pool_is_made_under_the_id_of_its_tokens() {
    let msg = make_pool_msg();
    let id = get_pool_id_with_tokens(
        &[coin("aside", 100), coin("uatom", 100)],
        "side".to_string(),
        "hub".to_string(),
    );
    let funds = vec![coin("aside", 100)];
    let (pool, m) = make_pool(&msg, &vec![], &vec![], &funds, 7, &"contract".to_string(), 10).unwrap();
    assert_eq!(pool.id, id);
    assert_eq!(pool.supply, coin(&id, 0));
    assert_eq!(pool.status, PoolStatus::Initialized);
    assert_eq!(m.lp_token.code_id, 7);
    assert_eq!(m.packet.channel, "channel-0");
    assert_eq!(m.packet.state_change, Some(StateChange { pool_id: Some(id.clone()), ..nothing() }));
    assert_eq!(m.packet.timeout_seconds, 610);
    assert_eq!(
        make_pool(&msg, &vec![id.clone()], &vec![], &funds, 7, &"contract".to_string(), 10).unwrap_err(),
        PoolError::PoolAlreadyExists
    );
    assert_eq!(
        make_pool(&msg, &vec![], &vec![id.clone()], &funds, 7, &"contract".to_string(), 10).unwrap_err(),
        PoolError::LpTokenExists
    );
    assert_eq!(
        make_pool(&msg, &vec![], &vec![], &vec![], 7, &"contract".to_string(), 10).unwrap_err(),
        PoolError::FundsMismatch
    );
}

#[test]
fn taking_and_cancelling_a_pool_send_packets() {
    let waiting = InterchainLiquidityPool { status: PoolStatus::Initialized, ..active_pool() };
    let funds = vec![coin("aside", 1_000_000)];
    let m = take_pool(&Some(waiting.clone()), &"taker".to_string(), &funds, false, 7, &"contract".to_string(), 5)
        .unwrap();
    assert_eq!(m.lp_token.unwrap().code_id, 7);
    assert_eq!(
        m.packet,
        PacketPlan {
            channel: "channel-1".to_string(),
            msg_type: InterchainMessageType::TakePool,
            state_change: None,
            timeout_seconds: 605,
        }
    );
    let m = take_pool(&Some(waiting.clone()), &"taker".to_string(), &funds, true, 7, &"contract".to_string(), 5)
        .unwrap();
    assert_eq!(m.lp_token, None);
    assert_eq!(
        take_pool(&Some(waiting.clone()), &"other".to_string(), &funds, true, 7, &"c".to_string(), 5).unwrap_err(),
        PoolError::InvalidSender
    );
    let pk = cancel_pool(&Some(waiting.clone()), &"maker".to_string(), &"admin".to_string(), 5).unwrap();
    assert_eq!(pk.msg_type, InterchainMessageType::CancelPool);
    assert_eq!((pk.channel.as_str(), pk.state_change, pk.timeout_seconds), ("channel-1", None, 605));
    assert_eq!(
        cancel_pool(&Some(waiting), &"x".to_string(), &"admin".to_string(), 5).unwrap_err(),
        PoolError::InvalidSender
    );
}

#[test]
fn deposits_withdrawals_and_swaps_send_their_packets() {
    let order = MultiAssetDepositOrder {
        id: "1".to_string(),
        pool_id: "pool1".to_string(),
        chain_id: "side".to_string(),
        source_maker: "alice".to_string(),
        destination_taker: "bob".to_string(),
        deposits: vec![coin("aside", 10), coin("uatom", 10)],
        status: OrderStatus::Pending,
        created_at: 0,
    };
    let pk = cancel_multi_asset_deposit(&Some(active_pool()), &Some(order.clone()), &"alice".to_string(), 1)
        .unwrap();
    assert_eq!(pk.msg_type, InterchainMessageType::CancelMultiDeposit);
    assert_eq!(pk.channel, "channel-1");
    assert_eq!(
        cancel_multi_asset_deposit(&Some(active_pool()), &Some(order), &"bob".to_string(), 1).unwrap_err(),
        PoolError::InvalidSender
    );

    let dep = MsgSingleAssetDepositRequest {
        pool_id: "pool1".to_string(),
        sender: "alice".to_string(),
        token: coin("aside", 1000),
        timeout_height: 0,
        timeout_timestamp: 0,
    };
    let (shares, pk) = single_asset_deposit(&dep, &vec![coin("aside", 1000)], Some(active_pool()), 1).unwrap();
    assert_eq!(pk.msg_type, InterchainMessageType::SingleAssetDeposit);
    assert_eq!(pk.state_change.unwrap().pool_tokens, Some(vec![shares]));

    let two = MsgMakeMultiAssetDepositRequest {
        pool_id: "pool1".to_string(),
        deposits: vec![
            DepositAsset { sender: "alice".to_string(), balance: coin("aside", 10) },
            DepositAsset { sender: "bob".to_string(), balance: coin("uatom", 10) },
        ],
        chain_id: "side".to_string(),
        timeout_height: 0,
        timeout_timestamp: 0,
    };
    let (shares, rec) =
        make_multi_asset_deposit(&two, Some(active_pool()), &vec![coin("aside", 10)], 8, "9".to_string(), 3, 1)
            .unwrap();
    assert_eq!(rec.counter, 9);
    assert_eq!(rec.order_key, "pool1-9");
    assert_eq!(rec.active_key, "alice-pool1-bob");
    assert_eq!(rec.packet.state_change.unwrap().pool_tokens, Some(shares));

    let (so, dout, transfer, pk) = multi_asset_withdraw(
        Some(active_pool()),
        &Some("lp".to_string()),
        &coin("pool1", 1_000_000),
        &"alice".to_string(),
        &"contract".to_string(),
        1,
    )
    .unwrap();
    assert_eq!((so.clone(), dout.clone()), (coin("aside", 500_000), coin("uatom", 500_000)));
    assert_eq!(
        transfer,
        LpTransferFrom {
            token: "lp".to_string(),
            owner: "alice".to_string(),
            recipient: "contract".to_string(),
            amount: 1_000_000
        }
    );
    let change = pk.state_change.unwrap();
    assert_eq!(change.out_tokens, Some(vec![so, dout]));
    assert_eq!(change.in_tokens, Some(vec![coin("pool1", 1_000_000)]));

    let msg = MsgSwapRequest {
        swap_type: SwapMsgType::LEFT,
        sender: "trader".to_string(),
        pool_id: "pool1".to_string(),
        token_in: coin("aside", 1000),
        token_out: coin("uatom", 0),
        slippage: 0,
        recipient: "trader".to_string(),
        timeout_height: 0,
        timeout_timestamp: 0,
    };
    let (t, out, pk) = swap(Some(active_pool()), &msg, &vec![coin("aside", 1000)], 1).unwrap();
    assert_eq!(t, InterchainMessageType::LeftSwap);
    assert_eq!(pk.msg_type, InterchainMessageType::LeftSwap);
    assert_eq!(pk.state_change.unwrap().out_tokens, Some(vec![out]));
}
