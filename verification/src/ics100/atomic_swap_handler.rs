//! What each atomic swap packet does to orders and bids: on the chain that receives it,
//! when it is acknowledged, and when it fails. The caller loads the order or bid,
//! hands it over, stores what comes back and sends the transfers.
use vstd::prelude::*;
use vstd::string::StrSliceExecFns;

use crate::coin::Coin;
use crate::ics100::error::ContractError;
use crate::ics100::msg::{CancelBidMsg, CancelSwapMsg, MakeBidMsg, MakeSwapMsg, TakeBidMsg, TakeSwapMsg};
use crate::ics100::state::{AtomicSwapOrder, Bid, BidStatus, FeeInfo, Status};
use crate::ics100::utils::{fee_payable, fee_spec, maker_fee, taker_fee};

verus! {

/// A bank transfer of `coin` to `recipient`.
#[derive(Clone, Debug, PartialEq, Eq)]
pub struct Transfer {
    pub recipient: String,
    pub coin: Coin,
}

/// `order` with its status set to `status`.
pub open spec fn with_status(order: AtomicSwapOrder, status: Status) -> AtomicSwapOrder {
    AtomicSwapOrder { status, ..order }
}

/// `order` completed at `now` (nanoseconds) by `taker`.
pub open spec fn completed(order: AtomicSwapOrder, taker: TakeSwapMsg, now: u64) -> AtomicSwapOrder {
    AtomicSwapOrder {
        status: Status::Complete,
        taker: Some(taker),
        complete_timestamp: Some(now),
        ..order
    }
}

/// `order` cancelled at `now` (nanoseconds).
pub open spec fn cancelled(order: AtomicSwapOrder, now: u64) -> AtomicSwapOrder {
    AtomicSwapOrder { status: Status::Cancel, cancel_timestamp: Some(now), ..order }
}

/// `order` open again: synced, with no taker.
pub open spec fn reopened(order: AtomicSwapOrder) -> AtomicSwapOrder {
    AtomicSwapOrder { taker: None, status: Status::Sync, ..order }
}

/// `bid` with its status set to `status`.
pub open spec fn bid_with_status(bid: Bid, status: BidStatus) -> Bid {
    Bid { status, ..bid }
}

/// Two coins of the same denomination and amount.
pub open spec fn same_coin(a: Coin, b: Coin) -> bool {
    a.denom@ == b.denom@ && a.amount == b.amount
}

/// `taker` may take an order that names `desired_taker` (anyone, where it is empty).
pub open spec fn taker_allowed(desired_taker: Seq<char>, taker: Seq<char>) -> bool {
    desired_taker.len() == 0 || desired_taker == taker
}

fn coins_equal(a: &Coin, b: &Coin) -> (r: bool)
    ensures
        r == same_coin(*a, *b),
{
    a.amount == b.amount && a.denom == b.denom
}

fn is_allowed_taker(desired_taker: &String, taker: &String) -> (r: bool)
    ensures
        r == taker_allowed(desired_taker@, taker@),
{
    desired_taker.as_str().unicode_len() == 0 || *desired_taker == *taker
}

/// A make-swap packet arrived: the order `order_id` is recorded as synced from the
/// maker's chain at `now` (seconds); `AlreadyExists` where an order of that id is stored.
pub fn on_received_make(order_id: String, msg: MakeSwapMsg, already_exists: bool, now: u64) -> (r:
    Result<AtomicSwapOrder, ContractError>)
    ensures
        already_exists ==> r == Err::<AtomicSwapOrder, ContractError>(ContractError::AlreadyExists),
        !already_exists ==> r == Ok::<AtomicSwapOrder, ContractError>(
            AtomicSwapOrder {
                id: order_id,
                maker: msg,
                status: Status::Sync,
                taker: None,
                create_timestamp: now,
                cancel_timestamp: None,
                complete_timestamp: None,
                min_bid_price: msg.min_bid_price,
            },
        ),
{
    if already_exists {
        return Err(ContractError::AlreadyExists);
    }
    let min_bid_price = msg.min_bid_price;
    Ok(
        AtomicSwapOrder {
            id: order_id,
            maker: msg,
            status: Status::Sync,
            taker: None,
            create_timestamp: now,
            cancel_timestamp: None,
            complete_timestamp: None,
            min_bid_price,
        },
    )
}

/// Why a take of `order` by `msg` is refused, if it is.
pub open spec fn take_error(order: AtomicSwapOrder, msg: TakeSwapMsg) -> Option<ContractError> {
    if !same_coin(msg.sell_token, order.maker.buy_token) {
        Some(ContractError::InvalidSellToken)
    } else if !taker_allowed(order.maker.desired_taker@, msg.taker_address@) {
        Some(ContractError::InvalidTakerAddress)
    } else {
        None
    }
}

/// Why a take of `order` by `msg` is refused, if it is.
pub fn take_refusal(order: &AtomicSwapOrder, msg: &TakeSwapMsg) -> (r: Option<ContractError>)
    ensures
        r == take_error(*order, *msg),
{
    if !coins_equal(&msg.sell_token, &order.maker.buy_token) {
        return Some(ContractError::InvalidSellToken);
    }
    if !is_allowed_taker(&order.maker.desired_taker, &msg.taker_address) {
        return Some(ContractError::InvalidTakerAddress);
    }
    None
}

/// A take is accepted only if it offers exactly the order's buy token: the same
/// denomination and the same amount. A take offering any other denomination or amount is
/// refused with `InvalidSellToken`, and one offering it is never refused for its token.
pub proof fn lemma_take_needs_buy_token(order: AtomicSwapOrder, msg: TakeSwapMsg)
    ensures
        take_error(order, msg) is None ==> msg.sell_token.denom@ == order.maker.buy_token.denom@
            && msg.sell_token.amount == order.maker.buy_token.amount,
        msg.sell_token.denom@ != order.maker.buy_token.denom@ ==> take_error(order, msg) == Some(
            ContractError::InvalidSellToken,
        ),
        msg.sell_token.amount != order.maker.buy_token.amount ==> take_error(order, msg) == Some(
            ContractError::InvalidSellToken,
        ),
        msg.sell_token.denom@ == order.maker.buy_token.denom@ && msg.sell_token.amount
            == order.maker.buy_token.amount ==> take_error(order, msg) != Some(
            ContractError::InvalidSellToken,
        ),
{
}

/// A take-swap packet arrived on the maker's chain: the order is completed at `now`
/// (nanoseconds), the taker gets what the maker sold, less the taker fee, at its
/// receiving address, and the treasury gets the fee.
pub fn on_received_take(order: AtomicSwapOrder, msg: TakeSwapMsg, fee_info: &FeeInfo, now: u64) -> (r:
    Result<(AtomicSwapOrder, Vec<Transfer>), ContractError>)
    requires
        take_error(order, msg) is None ==> fee_payable(
            order.maker.sell_token.amount,
            fee_info.taker_fee,
        ),
    ensures
        r is Err <==> take_error(order, msg) is Some,
        r matches Err(e) ==> take_error(order, msg) == Some(e),
        r matches Ok((o, transfers)) ==> {
            let sold = order.maker.sell_token;
            let fee = fee_spec(sold.amount as int, fee_info.taker_fee as int);
            &&& o == completed(order, msg, now)
            &&& transfers@ == seq![
                Transfer {
                    recipient: msg.taker_receiving_address,
                    coin: Coin { denom: sold.denom, amount: (sold.amount - fee) as u128 },
                },
                Transfer {
                    recipient: fee_info.treasury,
                    coin: Coin { denom: sold.denom, amount: fee as u128 },
                },
            ]
        },
{
    if !coins_equal(&msg.sell_token, &order.maker.buy_token) {
        return Err(ContractError::InvalidSellToken);
    }
    if !is_allowed_taker(&order.maker.desired_taker, &msg.taker_address) {
        return Err(ContractError::InvalidTakerAddress);
    }
    let (fee, rest, treasury) = taker_fee(
        fee_info,
        order.maker.sell_token.amount,
        order.maker.sell_token.denom.clone(),
    );
    let mut transfers: Vec<Transfer> = Vec::new();
    transfers.push(Transfer { recipient: msg.taker_receiving_address.clone(), coin: rest });
    transfers.push(Transfer { recipient: treasury, coin: fee });
    let mut order = order;
    order.status = Status::Complete;
    order.taker = Some(msg);
    order.complete_timestamp = Some(now);
    Ok((order, transfers))
}

/// Why a cancel of `order` by `msg` is refused, if it is.
pub open spec fn cancel_error(order: AtomicSwapOrder, msg: CancelSwapMsg) -> Option<ContractError> {
    if order.maker.maker_address@ != msg.maker_address@ {
        Some(ContractError::InvalidMakerAddress)
    } else if order.status != Status::Sync && order.status != Status::Initial {
        Some(ContractError::InvalidStatus)
    } else if order.taker is Some {
        Some(ContractError::AlreadyTakenOrder)
    } else {
        None
    }
}

/// A cancel-swap packet arrived: only the maker cancels, only an order not yet taken.
pub fn on_received_cancel(order: AtomicSwapOrder, msg: &CancelSwapMsg, now: u64) -> (r: Result<
    AtomicSwapOrder,
    ContractError,
>)
    ensures
        r is Err <==> cancel_error(order, *msg) is Some,
        r matches Err(e) ==> cancel_error(order, *msg) == Some(e),
        r matches Ok(o) ==> o == cancelled(order, now),
{
    if order.maker.maker_address != msg.maker_address {
        return Err(ContractError::InvalidMakerAddress);
    }
    if order.status != Status::Sync && order.status != Status::Initial {
        return Err(ContractError::InvalidStatus);
    }
    if order.taker.is_some() {
        return Err(ContractError::AlreadyTakenOrder);
    }
    let mut order = order;
    order.status = Status::Cancel;
    order.cancel_timestamp = Some(now);
    Ok(order)
}

/// A make-bid packet arrived: the bid is placed at `now` (seconds).
pub fn on_received_make_bid(msg: MakeBidMsg, now: u64) -> (r: Bid)
    ensures
        r == (Bid {
            bid: msg.sell_token,
            order: msg.order_id,
            status: BidStatus::Placed,
            bidder: msg.taker_address,
            bidder_receiver: msg.taker_receiving_address,
            receive_timestamp: now,
            expire_timestamp: msg.expiration_timestamp,
        }),
{
    Bid {
        bid: msg.sell_token,
        order: msg.order_id,
        status: BidStatus::Placed,
        bidder: msg.taker_address,
        bidder_receiver: msg.taker_receiving_address,
        receive_timestamp: now,
        expire_timestamp: msg.expiration_timestamp,
    }
}

/// The take of `order` that executing `bid` on it records.
pub open spec fn take_by_bid(order_id: String, bid: Bid) -> TakeSwapMsg {
    TakeSwapMsg {
        order_id,
        sell_token: bid.bid,
        taker_address: bid.bidder,
        taker_receiving_address: bid.bidder_receiver,
    }
}

/// Why executing the stored `bid` on `order` is refused, if it is.
pub open spec fn take_bid_error(order: AtomicSwapOrder, bid: Option<Bid>, msg: TakeBidMsg) -> Option<
    ContractError,
> {
    if bid is None {
        Some(ContractError::BidDoesntExist)
    } else if !taker_allowed(order.maker.desired_taker@, msg.bidder@) {
        Some(ContractError::InvalidTakerAddress)
    } else {
        None
    }
}

/// A take-bid packet arrived on the maker's chain: the stored bid of `msg.bidder`
/// (`bid`, where there is one) is executed, the order completed at `now` (nanoseconds),
/// and the bidder gets what the maker sold at its receiving address.
pub fn on_received_take_bid(order: AtomicSwapOrder, bid: Option<Bid>, msg: &TakeBidMsg, now: u64) -> (r:
    Result<(AtomicSwapOrder, Bid, Transfer), ContractError>)
    ensures
        r is Err <==> take_bid_error(order, bid, *msg) is Some,
        r matches Err(e) ==> take_bid_error(order, bid, *msg) == Some(e),
        r matches Ok((o, b, t)) ==> {
            &&& b == bid_with_status(bid->0, BidStatus::Executed)
            &&& o == completed(order, take_by_bid(msg.order_id, bid->0), now)
            &&& t == (Transfer { recipient: bid->0.bidder_receiver, coin: order.maker.sell_token })
        },
{
    let bid = match bid {
        Some(b) => b,
        None => {
            return Err(ContractError::BidDoesntExist);
        },
    };
    if !is_allowed_taker(&order.maker.desired_taker, &msg.bidder) {
        return Err(ContractError::InvalidTakerAddress);
    }
    let transfer = Transfer {
        recipient: bid.bidder_receiver.clone(),
        coin: order.maker.sell_token.duplicate(),
    };
    let take = TakeSwapMsg {
        order_id: msg.order_id.clone(),
        sell_token: bid.bid.duplicate(),
        taker_address: bid.bidder.clone(),
        taker_receiving_address: bid.bidder_receiver.clone(),
    };
    let mut bid = bid;
    bid.status = BidStatus::Executed;
    let mut order = order;
    order.status = Status::Complete;
    order.taker = Some(take);
    order.complete_timestamp = Some(now);
    Ok((order, bid, transfer))
}

/// A cancel-bid packet arrived: the stored bid (`bid`, where there is one) is cancelled.
pub fn on_received_cancel_bid(bid: Option<Bid>, msg: &CancelBidMsg) -> (r: Result<Bid, ContractError>)
    ensures
        bid is None ==> r == Err::<Bid, ContractError>(ContractError::BidDoesntExist),
        bid is Some ==> r == Ok::<Bid, ContractError>(bid_with_status(bid->0, BidStatus::Cancelled)),
{
    match bid {
        Some(b) => {
            let mut b = b;
            b.status = BidStatus::Cancelled;
            Ok(b)
        },
        None => Err(ContractError::BidDoesntExist),
    }
}

/// The make-swap packet was acknowledged: the order is synced.
pub fn ack_make_swap(order: AtomicSwapOrder) -> (r: AtomicSwapOrder)
    ensures
        r == with_status(order, Status::Sync),
{
    let mut order = order;
    order.status = Status::Sync;
    order
}

/// The take-swap packet was acknowledged on the taker's chain: the order is completed
/// at `now` (nanoseconds), the maker gets what the taker sold, less the maker fee, at
/// its receiving address, and
/// the treasury gets the fee.
pub fn ack_take_swap(order: AtomicSwapOrder, msg: TakeSwapMsg, fee_info: &FeeInfo, now: u64) -> (r: (
    AtomicSwapOrder,
    Vec<Transfer>,
))
    requires
        fee_payable(msg.sell_token.amount, fee_info.maker_fee),
    ensures
        ({
            let sold = msg.sell_token;
            let fee = fee_spec(sold.amount as int, fee_info.maker_fee as int);
            &&& r.0 == completed(order, msg, now)
            &&& r.1@ == seq![
                Transfer {
                    recipient: order.maker.maker_receiving_address,
                    coin: Coin { denom: sold.denom, amount: (sold.amount - fee) as u128 },
                },
                Transfer {
                    recipient: fee_info.treasury,
                    coin: Coin { denom: sold.denom, amount: fee as u128 },
                },
            ]
        }),
{
    let (fee, rest, treasury) = maker_fee(fee_info, msg.sell_token.amount, msg.sell_token.denom.clone());
    let mut transfers: Vec<Transfer> = Vec::new();
    transfers.push(Transfer { recipient: order.maker.maker_receiving_address.clone(), coin: rest });
    transfers.push(Transfer { recipient: treasury, coin: fee });
    let mut order = order;
    order.status = Status::Complete;
    order.taker = Some(msg);
    order.complete_timestamp = Some(now);
    (order, transfers)
}

/// The cancel-swap packet was acknowledged on the maker's chain: the order is cancelled
/// at `now` (nanoseconds) and the maker gets back what it sold.
pub fn ack_cancel_swap(order: AtomicSwapOrder, now: u64) -> (r: (AtomicSwapOrder, Transfer))
    ensures
        r.0 == cancelled(order, now),
        r.1 == (Transfer { recipient: order.maker.maker_address, coin: order.maker.sell_token }),
{
    let refund = Transfer {
        recipient: order.maker.maker_address.clone(),
        coin: order.maker.sell_token.duplicate(),
    };
    let mut order = order;
    order.status = Status::Cancel;
    order.cancel_timestamp = Some(now);
    (order, refund)
}

/// The make-bid packet was acknowledged: the bid is placed.
pub fn ack_make_bid(bid: Bid) -> (r: Bid)
    ensures
        r == bid_with_status(bid, BidStatus::Placed),
{
    let mut bid = bid;
    bid.status = BidStatus::Placed;
    bid
}

/// The take-bid packet was acknowledged on the bidder's chain: the stored bid is
/// executed, the order completed at `now` (nanoseconds), and the maker gets the bid at
/// its receiving address.
pub fn ack_take_bid(order: AtomicSwapOrder, bid: Option<Bid>, msg: &TakeBidMsg, now: u64) -> (r:
    Result<(AtomicSwapOrder, Bid, Transfer), ContractError>)
    ensures
        bid is None ==> r == Err::<(AtomicSwapOrder, Bid, Transfer), ContractError>(
            ContractError::BidDoesntExist,
        ),
        bid is Some ==> r == Ok::<(AtomicSwapOrder, Bid, Transfer), ContractError>(
            (
                completed(order, take_by_bid(msg.order_id, bid->0), now),
                bid_with_status(bid->0, BidStatus::Executed),
                Transfer { recipient: order.maker.maker_receiving_address, coin: bid->0.bid },
            ),
        ),
{
    let bid = match bid {
        Some(b) => b,
        None => {
            return Err(ContractError::BidDoesntExist);
        },
    };
    let transfer = Transfer {
        recipient: order.maker.maker_receiving_address.clone(),
        coin: bid.bid.duplicate(),
    };
    let take = TakeSwapMsg {
        order_id: msg.order_id.clone(),
        sell_token: bid.bid.duplicate(),
        taker_address: bid.bidder.clone(),
        taker_receiving_address: bid.bidder_receiver.clone(),
    };
    let mut bid = bid;
    bid.status = BidStatus::Executed;
    let mut order = order;
    order.status = Status::Complete;
    order.taker = Some(take);
    order.complete_timestamp = Some(now);
    Ok((order, bid, transfer))
}

/// The cancel-bid packet was acknowledged: the stored bid is cancelled and the bidder
/// gets it back.
pub fn ack_cancel_bid(bid: Option<Bid>) -> (r: Result<(Bid, Transfer), ContractError>)
    ensures
        bid is None ==> r == Err::<(Bid, Transfer), ContractError>(ContractError::BidDoesntExist),
        bid is Some ==> r == Ok::<(Bid, Transfer), ContractError>(
            (
                bid_with_status(bid->0, BidStatus::Cancelled),
                Transfer { recipient: bid->0.bidder, coin: bid->0.bid },
            ),
        ),
{
    match bid {
        Some(b) => {
            let refund = Transfer { recipient: b.bidder.clone(), coin: b.bid.duplicate() };
            let mut b = b;
            b.status = BidStatus::Cancelled;
            Ok((b, refund))
        },
        None => Err(ContractError::BidDoesntExist),
    }
}

/// The make-swap packet failed: the order fails and the maker gets back what it sold.
pub fn refund_make_swap(order: AtomicSwapOrder, msg: &MakeSwapMsg) -> (r: (AtomicSwapOrder, Transfer))
    ensures
        r.0 == with_status(order, Status::Failed),
        r.1 == (Transfer { recipient: msg.maker_address, coin: msg.sell_token }),
{
    let refund = Transfer { recipient: msg.maker_address.clone(), coin: msg.sell_token.duplicate() };
    let mut order = order;
    order.status = Status::Failed;
    (order, refund)
}

/// The take-swap packet failed: the order is open again, with no taker, and the taker
/// gets back what it sold.
pub fn refund_take_swap(order: AtomicSwapOrder, msg: &TakeSwapMsg) -> (r: (AtomicSwapOrder, Transfer))
    ensures
        r.0 == reopened(order),
        r.1 == (Transfer { recipient: msg.taker_address, coin: msg.sell_token }),
{
    let refund = Transfer { recipient: msg.taker_address.clone(), coin: msg.sell_token.duplicate() };
    let mut order = order;
    order.taker = None;
    order.status = Status::Sync;
    (order, refund)
}

/// The make-bid packet failed: the bid fails and the bidder gets back what it offered.
pub fn refund_make_bid(bid: Bid, msg: &MakeBidMsg) -> (r: (Bid, Transfer))
    ensures
        r.0 == bid_with_status(bid, BidStatus::Failed),
        r.1 == (Transfer { recipient: msg.taker_address, coin: msg.sell_token }),
{
    let refund = Transfer { recipient: msg.taker_address.clone(), coin: msg.sell_token.duplicate() };
    let mut bid = bid;
    bid.status = BidStatus::Failed;
    (bid, refund)
}

/// A taken order stays taken: once a take completes it, no cancel succeeds on it.
pub proof fn lemma_taken_order_cannot_be_cancelled(
    order: AtomicSwapOrder,
    take: TakeSwapMsg,
    now: u64,
    cancel: CancelSwapMsg,
)
    ensures
        cancel_error(completed(order, take, now), cancel) is Some,
{
}

/// A failed take is undone: reopening a completed order leaves it as it was before the
/// take, but for the completion time, and its maker may cancel it again.
pub proof fn lemma_refund_reopens_taken_order(order: AtomicSwapOrder, take: TakeSwapMsg, now: u64)
    requires
        order.taker is None,
        order.status == Status::Sync,
    ensures
        reopened(completed(order, take, now)) == (AtomicSwapOrder {
            complete_timestamp: Some(now),
            ..order
        }),
        cancel_error(
            reopened(completed(order, take, now)),
            CancelSwapMsg { order_id: take.order_id, maker_address: order.maker.maker_address },
        ) is None,
{
}

} // verus!
