use side_contracts::coin::Coin;
use side_contracts::ics100::atomic_swap_handler::{
    ack_cancel_bid, ack_cancel_swap, ack_make_bid, ack_make_swap, ack_take_bid, ack_take_swap,
    on_received_cancel, on_received_cancel_bid, on_received_make, on_received_make_bid,
    on_received_take, on_received_take_bid, refund_make_bid, refund_make_swap, refund_take_swap,
    Transfer,
};
use side_contracts::ics100::error::ContractError;
use side_contracts::ics100::msg::{
    is_valid_name, CancelBidMsg, CancelSwapMsg, MakeBidMsg, MakeSwapMsg, TakeBidMsg, TakeSwapMsg,
};
use side_contracts::ics100::state::{bid_key, AtomicSwapOrder, Bid, BidStatus, FeeInfo, Status};
use side_contracts::ics100::utils::{
    enforce_order_and_version, extract_source_channel_for_taker_msg, generate_order_id, maker_fee,
    order_path, taker_fee, ChannelError, ChannelOrder,
};

fn coin(denom: &str, amount: u128) -> Coin {
    Coin { denom: denom.to_string(), amount }
}

fn make_msg(desired_taker: &str) -> MakeSwapMsg {
    MakeSwapMsg {
        sell_token: coin("aside", 1000),
        buy_token: coin("uatom", 50),
        maker_address: "maker".to_string(),
        maker_receiving_address: "maker-recv".to_string(),
        desired_taker: desired_taker.to_string(),
        take_bids: true,
        min_bid_price: Some(10),
        expiration_timestamp: 99,
    }
}

fn fee_info() -> FeeInfo {
    FeeInfo { maker_fee: 100, taker_fee: 50, treasury: "treasury".to_string() }
}

fn synced_order(desired_taker: &str) -> AtomicSwapOrder {
    on_received_make("order-1".to_string(), make_msg(desired_taker), false, 7).unwrap()
}

#[test]
fn order_path_formats_the_channels_and_sequence() {
    let path = order_path(
        "channel-0".to_string(),
        "swap".to_string(),
        "channel-9".to_string(),
        "swap".to_string(),
        42,
    );
    assert_eq!(path, "channel/channel-0/port/swap/channel/channel-9/port/swap/42");
    assert_eq!(
        order_path("a".to_string(), "b".to_string(), "c".to_string(), "d".to_string(), 0),
        "channel/a/port/b/channel/c/port/d/0"
    );
    assert_eq!(
        order_path("a".to_string(), "b".to_string(), "c".to_string(), "d".to_string(), u64::MAX),
        "channel/a/port/b/channel/c/port/d/18446744073709551615"
    );
    assert_eq!(
        order_path("a".to_string(), "b".to_string(), "c".to_string(), "d".to_string(), 1000907),
        "channel/a/port/b/channel/c/port/d/1000907"
    );
}

#[test]
fn order_id_is_hex_sha256_of_the_path() {
    let id = generate_order_id("abc");
    assert_eq!(id, "ba7816bf8f01cfea414140de5dae2223b00361a396177a9cb410ff61f20015ad");
    assert_eq!(id.len(), 64);
}

#[test]
fn source_channel_is_the_sixth_part() {
    let path = "channel/channel-0/port/swap/channel/channel-9/port/swap/42";
    assert_eq!(extract_source_channel_for_taker_msg(path).unwrap(), "channel-9");
    assert_eq!(extract_source_channel_for_taker_msg("a/b/c/d/e/").unwrap(), "");
    assert_eq!(extract_source_channel_for_taker_msg("a/b/c/d/e/f").unwrap(), "f");
    assert_eq!(extract_source_channel_for_taker_msg("a/b/c/d/e").unwrap_err(), ContractError::InvalidPath);
    assert_eq!(extract_source_channel_for_taker_msg("").unwrap_err(), ContractError::InvalidPath);
}

#[test]
fn fees_split_the_amount() {
    let (fee, rest, treasury) = taker_fee(&fee_info(), 1000, "aside".to_string());
    assert_eq!(fee, coin("aside", 5));
    assert_eq!(rest, coin("aside", 995));
    assert_eq!(treasury, "treasury");
    let (fee, rest, _) = maker_fee(&fee_info(), 1000, "uatom".to_string());
    assert_eq!(fee.amount + rest.amount, 1000);
    assert_eq!(fee.amount, 10);
    // A fee that rounds to zero is one.
    let (fee, rest, _) = taker_fee(&fee_info(), 10, "aside".to_string());
    assert_eq!((fee.amount, rest.amount), (1, 9));
}

#[test]
fn names_are_three_to_twenty_bytes() {
    assert!(!is_valid_name("ab"));
    assert!(is_valid_name("abc"));
    assert!(is_valid_name("abcdefghijklmnopqrst"));
    assert!(!is_valid_name("abcdefghijklmnopqrstu"));
}

#[test]
fn make_records_a_synced_order() {
    let order = synced_order("");
    assert_eq!(order.status, Status::Sync);
    assert_eq!(order.create_timestamp, 7);
    assert_eq!(order.min_bid_price, Some(10));
    assert!(order.taker.is_none());
    assert_eq!(
        on_received_make("order-1".to_string(), make_msg(""), true, 7).unwrap_err(),
        ContractError::AlreadyExists
    );
}

#[test]
fn take_completes_and_pays_less_the_fee() {
    let take = TakeSwapMsg { order_id: "order-1".to_string(), sell_token: coin("uatom", 50), taker_address: "taker".to_string(), taker_receiving_address: "taker-recv".to_string() };
    let (order, transfers) = on_received_take(synced_order(""), take.clone(), &fee_info(), 1_000).unwrap();
    assert_eq!(order.status, Status::Complete);
    assert_eq!(order.taker, Some(take.clone()));
    assert_eq!(order.complete_timestamp, Some(1_000));
    assert_eq!(
        transfers,
        vec![
            Transfer { recipient: "taker-recv".to_string(), coin: coin("aside", 995) },
            Transfer { recipient: "treasury".to_string(), coin: coin("aside", 5) },
        ]
    );
    let wrong = TakeSwapMsg { sell_token: coin("uatom", 49), ..take.clone() };
    assert_eq!(on_received_take(synced_order(""), wrong, &fee_info(), 1).unwrap_err(), ContractError::InvalidSellToken);
    assert_eq!(
        on_received_take(synced_order("someone"), take, &fee_info(), 1).unwrap_err(),
        ContractError::InvalidTakerAddress
    );
}

#[test]
fn cancel_only_by_the_maker_before_a_take() {
    let msg = CancelSwapMsg { order_id: "order-1".to_string(), maker_address: "maker".to_string() };
    let order = on_received_cancel(synced_order(""), &msg, 5).unwrap();
    assert_eq!(order.status, Status::Cancel);
    assert_eq!(order.cancel_timestamp, Some(5));
    let other = CancelSwapMsg { maker_address: "other".to_string(), ..msg.clone() };
    assert_eq!(on_received_cancel(synced_order(""), &other, 5).unwrap_err(), ContractError::InvalidMakerAddress);
    let done = AtomicSwapOrder { status: Status::Complete, ..synced_order("") };
    assert_eq!(on_received_cancel(done, &msg, 5).unwrap_err(), ContractError::InvalidStatus);
    let take = TakeSwapMsg { order_id: "order-1".to_string(), sell_token: coin("uatom", 50), taker_address: "t".to_string(), taker_receiving_address: "t".to_string() };
    let taken = AtomicSwapOrder { taker: Some(take), ..synced_order("") };
    assert_eq!(on_received_cancel(taken, &msg, 5).unwrap_err(), ContractError::AlreadyTakenOrder);
}

fn placed_bid() -> Bid {
    on_received_make_bid(
        MakeBidMsg {
            order_id: "order-1".to_string(),
            sell_token: coin("uatom", 60),
            taker_address: "bidder".to_string(),
            taker_receiving_address: "bidder-recv".to_string(),
            expiration_timestamp: 50,
        },
        3,
    )
}

#[test]
fn bids_are_placed_taken_and_cancelled() {
    let bid = placed_bid();
    assert_eq!(bid.status, BidStatus::Placed);
    assert_eq!(bid.receive_timestamp, 3);
    assert_eq!(bid_key(&bid.order, &bid.bidder), ("order-1".to_string(), "bidder".to_string()));

    let take = TakeBidMsg { order_id: "order-1".to_string(), bidder: "bidder".to_string() };
    let (order, bid2, transfer) = on_received_take_bid(synced_order(""), Some(bid.clone()), &take, 9).unwrap();
    assert_eq!(bid2.status, BidStatus::Executed);
    assert_eq!(order.status, Status::Complete);
    assert_eq!(order.taker.unwrap().sell_token, coin("uatom", 60));
    assert_eq!(transfer, Transfer { recipient: "bidder-recv".to_string(), coin: coin("aside", 1000) });
    assert_eq!(on_received_take_bid(synced_order(""), None, &take, 9).unwrap_err(), ContractError::BidDoesntExist);
    assert_eq!(
        on_received_take_bid(synced_order("x"), Some(bid.clone()), &take, 9).unwrap_err(),
        ContractError::InvalidTakerAddress
    );

    let cancel = CancelBidMsg { order_id: "order-1".to_string(), bidder: "bidder".to_string() };
    assert_eq!(on_received_cancel_bid(Some(bid.clone()), &cancel).unwrap().status, BidStatus::Cancelled);
    assert_eq!(on_received_cancel_bid(None, &cancel).unwrap_err(), ContractError::BidDoesntExist);
}

#[test]
fn acknowledgements_settle_on_the_sending_chain() {
    let initial = AtomicSwapOrder { status: Status::Initial, ..synced_order("") };
    assert_eq!(ack_make_swap(initial).status, Status::Sync);

    let take = TakeSwapMsg { order_id: "order-1".to_string(), sell_token: coin("uatom", 50), taker_address: "taker".to_string(), taker_receiving_address: "taker-recv".to_string() };
    let (order, transfers) = ack_take_swap(synced_order(""), take, &fee_info(), 4);
    assert_eq!(order.status, Status::Complete);
    assert_eq!(transfers[0], Transfer { recipient: "maker-recv".to_string(), coin: coin("uatom", 49) });
    assert_eq!(transfers[1], Transfer { recipient: "treasury".to_string(), coin: coin("uatom", 1) });

    let (order, refund) = ack_cancel_swap(synced_order(""), 8);
    assert_eq!(order.status, Status::Cancel);
    assert_eq!(refund, Transfer { recipient: "maker".to_string(), coin: coin("aside", 1000) });

    let failed = Bid { status: BidStatus::Initial, ..placed_bid() };
    assert_eq!(ack_make_bid(failed).status, BidStatus::Placed);

    let take = TakeBidMsg { order_id: "order-1".to_string(), bidder: "bidder".to_string() };
    let (order, bid, transfer) = ack_take_bid(synced_order(""), Some(placed_bid()), &take, 2).unwrap();
    assert_eq!((order.status, bid.status), (Status::Complete, BidStatus::Executed));
    assert_eq!(transfer, Transfer { recipient: "maker-recv".to_string(), coin: coin("uatom", 60) });
    assert!(ack_take_bid(synced_order(""), None, &take, 2).is_err());

    let (bid, refund) = ack_cancel_bid(Some(placed_bid())).unwrap();
    assert_eq!(bid.status, BidStatus::Cancelled);
    assert_eq!(refund, Transfer { recipient: "bidder".to_string(), coin: coin("uatom", 60) });
    assert_eq!(ack_cancel_bid(None).unwrap_err(), ContractError::BidDoesntExist);
}

#[test]
fn failed_packets_refund() {
    let (order, refund) = refund_make_swap(synced_order(""), &make_msg(""));
    assert_eq!(order.status, Status::Failed);
    assert_eq!(refund, Transfer { recipient: "maker".to_string(), coin: coin("aside", 1000) });

    let take = TakeSwapMsg { order_id: "order-1".to_string(), sell_token: coin("uatom", 50), taker_address: "taker".to_string(), taker_receiving_address: "taker-recv".to_string() };
    let taken = AtomicSwapOrder { taker: Some(take.clone()), status: Status::Complete, ..synced_order("") };
    let (order, refund) = refund_take_swap(taken, &take);
    assert_eq!((order.status, order.taker), (Status::Sync, None));
    assert_eq!(refund, Transfer { recipient: "taker".to_string(), coin: coin("uatom", 50) });

    let msg = MakeBidMsg { order_id: "order-1".to_string(), sell_token: coin("uatom", 60), taker_address: "bidder".to_string(), taker_receiving_address: "bidder-recv".to_string(), expiration_timestamp: 1 };
    let (bid, refund) = refund_make_bid(placed_bid(), &msg);
    assert_eq!(bid.status, BidStatus::Failed);
    assert_eq!(refund, Transfer { recipient: "bidder".to_string(), coin: coin("uatom", 60) });
}

#[test]
fn a_taken_order_cannot_be_cancelled() {
    let take = TakeSwapMsg { order_id: "order-1".to_string(), sell_token: coin("uatom", 50), taker_address: "taker".to_string(), taker_receiving_address: "taker-recv".to_string() };
    let (order, _) = on_received_take(synced_order(""), take, &fee_info(), 1).unwrap();
    let msg = CancelSwapMsg { order_id: "order-1".to_string(), maker_address: "maker".to_string() };
    assert_eq!(on_received_cancel(order, &msg, 2).unwrap_err(), ContractError::InvalidStatus);
}

#[test]
fn channels_must_speak_the_version_unordered() {
    let v = "ics100-1".to_string();
    let other = "ics20-1".to_string();
    assert!(enforce_order_and_version(&v, ChannelOrder::Unordered, None).is_ok());
    assert!(enforce_order_and_version(&v, ChannelOrder::Unordered, Some(&v)).is_ok());
    assert_eq!(
        enforce_order_and_version(&other, ChannelOrder::Unordered, None).unwrap_err(),
        ChannelError::InvalidIbcVersion { version: other.clone() }
    );
    assert_eq!(
        enforce_order_and_version(&v, ChannelOrder::Unordered, Some(&other)).unwrap_err(),
        ChannelError::InvalidIbcVersion { version: other.clone() }
    );
    assert_eq!(
        enforce_order_and_version(&v, ChannelOrder::Ordered, None).unwrap_err(),
        ChannelError::OnlyOrderedChannel
    );
}
