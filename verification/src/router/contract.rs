//! Multi-hop swaps: checking the route, and what each hop asks of the chain.
//!
//! A multi-hop swap runs as a chain of callbacks. Each step swaps what the previous
//! one returned and schedules the next step, which learns from the router's balance
//! how much the swap returned. The caller queries balances and hands them over.
use vstd::prelude::*;

use crate::coin::Coin;
use crate::router::msg::SwapRequest;

verus! {

/// The most hops a multi-hop swap may have.
pub const MAX_SWAP_OPERATIONS: usize = 50;

/// The slippage, in percent, that each hop's swap allows.
pub const HOP_SLIPPAGE: u64 = 99;

#[derive(Clone, Copy, Debug, PartialEq, Eq, Structural)]
pub enum ContractError {
    /// A multi-hop swap needs at least one hop.
    NoHops,
    /// More hops than `MAX_SWAP_OPERATIONS`.
    TooManyHops,
    /// A hop does not offer what the hop before it asks.
    BrokenRoute,
    /// No funds of the first hop's offered denomination came with the request.
    FundsNotSent,
    /// Fewer tokens came with the request than it offers.
    OfferExceedsFunds,
    /// The swaps returned less than the minimum to receive.
    MinimumReceiveNotMet,
    /// What the previous hop returned is not what the next one offers.
    HopAssetMismatch,
    /// Callbacks may only come from the router itself.
    ExternalCallback,
}

/// A bank transfer of `coin` to `recipient`.
#[derive(Clone, Debug, PartialEq, Eq)]
pub struct Transfer {
    pub recipient: String,
    pub coin: Coin,
}

/// A swap asked of the chain's swap module.
#[derive(Clone, Debug, PartialEq, Eq)]
pub struct SwapOrder {
    pub pool_id: String,
    pub token_in: Coin,
    pub token_out: Coin,
    /// Percent.
    pub slippage: u64,
}

/// The callback that runs the next step of a multi-hop swap.
#[derive(Clone, Debug, PartialEq, Eq)]
pub struct HopSwapMsg {
    /// The hops still to run.
    pub requests: Vec<SwapRequest>,
    /// What the last swap returned.
    pub offer_asset: String,
    /// The router's balance of `offer_asset` before the last swap.
    pub prev_ask_amount: u128,
    pub recipient: String,
    pub minimum_receive: u128,
}

/// What a step of a multi-hop swap does.
#[derive(Clone, Debug, PartialEq, Eq)]
pub enum HopAction {
    /// The route is done: send what the last swap returned.
    Send(Transfer),
    /// Swap through the next hop, then run the callback.
    Swap(SwapOrder, HopSwapMsg),
}

/// Each hop offers what the hop before it asks.
pub open spec fn chained(requests: Seq<SwapRequest>) -> bool {
    forall|i: int|
        1 <= i < requests.len() ==> #[trigger] requests[i].asset_in@ == requests[i - 1].asset_out@
}

/// Checks that each hop of `requests` offers what the hop before it asks.
pub fn assert_requests(requests: &[SwapRequest]) -> (r: Result<(), ContractError>)
    requires
        requests@.len() >= 1,
    ensures
        r is Ok <==> chained(requests@),
        r matches Err(e) ==> e == ContractError::BrokenRoute,
{
    let mut i: usize = 1;
    while i < requests.len()
        invariant
            1 <= i <= requests@.len(),
            forall|k: int|
                1 <= k < i ==> #[trigger] requests@[k].asset_in@ == requests@[k - 1].asset_out@,
        decreases requests@.len() - i,
    {
        if requests[i].asset_in != requests[i - 1].asset_out {
            return Err(ContractError::BrokenRoute);
        }
        i = i + 1;
    }
    Ok(())
}

/// The amount of the last of `funds` in `denom`, where one is.
pub open spec fn sent_amount(funds: Seq<Coin>, denom: Seq<char>) -> Option<u128>
    decreases funds.len(),
{
    if funds.len() == 0 {
        None
    } else if funds.last().denom@ == denom {
        Some(funds.last().amount)
    } else {
        sent_amount(funds.drop_last(), denom)
    }
}

fn find_sent(funds: &Vec<Coin>, denom: &String) -> (r: Option<u128>)
    ensures
        r == sent_amount(funds@, denom@),
{
    let mut i: usize = 0;
    let mut found: Option<u128> = None;
    while i < funds.len()
        invariant
            i <= funds@.len(),
            found == sent_amount(funds@.subrange(0, i as int), denom@),
        decreases funds@.len() - i,
    {
        assert(funds@.subrange(0, i + 1).drop_last() =~= funds@.subrange(0, i as int));
        if funds[i].denom == *denom {
            found = Some(funds[i].amount);
        }
        i = i + 1;
    }
    assert(funds@.subrange(0, funds@.len() as int) =~= funds@);
    found
}

/// The swap of `amount` through the hop `request`.
pub open spec fn hop_order(request: SwapRequest, amount: u128) -> SwapOrder {
    SwapOrder {
        pool_id: request.pool_id,
        token_in: Coin { denom: request.asset_in, amount },
        token_out: Coin { denom: request.asset_out, amount: 1 },
        slippage: HOP_SLIPPAGE,
    }
}

/// Why a multi-hop swap of `requests`, offering `offer_amount` out of `funds`, is refused.
pub open spec fn multi_swap_error(requests: Seq<SwapRequest>, offer_amount: u128, funds: Seq<Coin>) -> Option<
    ContractError,
> {
    if requests.len() < 1 {
        Some(ContractError::NoHops)
    } else if requests.len() > MAX_SWAP_OPERATIONS {
        Some(ContractError::TooManyHops)
    } else if !chained(requests) {
        Some(ContractError::BrokenRoute)
    } else if sent_amount(funds, requests[0].asset_in@) is None {
        Some(ContractError::FundsNotSent)
    } else if sent_amount(funds, requests[0].asset_in@)->0 < offer_amount {
        Some(ContractError::OfferExceedsFunds)
    } else {
        None
    }
}

/// Starts a multi-hop swap of `requests` for `sender`, with `funds` sent along: the
/// first hop swaps all that was sent of its offered denomination, and the callback
/// continues with the rest of the route, for `receiver` (or `sender`), from the
/// router's balance `ask_balance` of what the first hop asks.
pub fn multi_swap(
    requests: Vec<SwapRequest>,
    offer_amount: u128,
    funds: &Vec<Coin>,
    sender: String,
    receiver: Option<String>,
    minimum_receive: Option<u128>,
    ask_balance: u128,
) -> (r: Result<(SwapOrder, HopSwapMsg), ContractError>)
    ensures
        r is Err <==> multi_swap_error(requests@, offer_amount, funds@) is Some,
        r matches Err(e) ==> multi_swap_error(requests@, offer_amount, funds@) == Some(e),
        r matches Ok((swap, next)) ==> {
            let first = requests@[0];
            &&& swap == hop_order(first, sent_amount(funds@, first.asset_in@)->0)
            &&& next.requests@ == requests@.drop_first()
            &&& next.offer_asset == first.asset_out
            &&& next.prev_ask_amount == ask_balance
            &&& next.recipient == match receiver {
                Some(a) => a,
                None => sender,
            }
            &&& next.minimum_receive == match minimum_receive {
                Some(m) => m,
                None => 0u128,
            }
        },
{
    let recipient = match receiver {
        Some(a) => a,
        None => sender,
    };
    if requests.len() < 1 {
        return Err(ContractError::NoHops);
    }
    if requests.len() > MAX_SWAP_OPERATIONS {
        return Err(ContractError::TooManyHops);
    }
    let checked = assert_requests(requests.as_slice());
    if checked.is_err() {
        return Err(ContractError::BrokenRoute);
    }
    let minimum_receive = match minimum_receive {
        Some(m) => m,
        None => 0,
    };
    let received = match find_sent(funds, &requests[0].asset_in) {
        Some(a) => a,
        None => {
            return Err(ContractError::FundsNotSent);
        },
    };
    if received < offer_amount {
        return Err(ContractError::OfferExceedsFunds);
    }
    let mut requests = requests;
    let first = requests.remove(0);
    let swap = SwapOrder {
        pool_id: first.pool_id,
        token_in: Coin { denom: first.asset_in, amount: received },
        token_out: Coin { denom: first.asset_out.clone(), amount: 1 },
        slippage: HOP_SLIPPAGE,
    };
    let next = HopSwapMsg {
        requests,
        offer_asset: first.asset_out,
        prev_ask_amount: ask_balance,
        recipient,
        minimum_receive,
    };
    Ok((swap, next))
}

/// `r` is what a step of a multi-hop swap does (see `hop_swap`).
pub open spec fn hop_swap_done(
    requests: Seq<SwapRequest>,
    offer_asset: String,
    prev_ask_amount: u128,
    recipient: String,
    minimum_receive: u128,
    asset_balance: u128,
    ask_balance: u128,
    r: Result<HopAction, ContractError>,
) -> bool {
    let amount = (asset_balance - prev_ask_amount) as u128;
    &&& requests.len() == 0 && amount < minimum_receive ==> r == Err::<HopAction, ContractError>(
        ContractError::MinimumReceiveNotMet,
    )
    &&& requests.len() == 0 && amount >= minimum_receive ==> r == Ok::<HopAction, ContractError>(
        HopAction::Send(Transfer { recipient, coin: Coin { denom: offer_asset, amount } }),
    )
    &&& requests.len() > 0 && offer_asset@ != requests[0].asset_in@ ==> r == Err::<
        HopAction,
        ContractError,
    >(ContractError::HopAssetMismatch)
    &&& requests.len() > 0 && offer_asset@ == requests[0].asset_in@ ==> (r matches Ok(
        HopAction::Swap(swap, next),
    ) && swap == hop_order(requests[0], amount) && next.requests@ == requests.drop_first()
        && next.offer_asset == requests[0].asset_out && next.prev_ask_amount == ask_balance
        && next.recipient == recipient && next.minimum_receive == minimum_receive)
}

/// A step of a multi-hop swap, with the router's balance `asset_balance` of what the
/// last swap returned and `ask_balance` of what the next hop asks: at the end of the
/// route, what the swaps returned goes to the recipient if it is at least the minimum;
/// else the next hop swaps it and schedules the step after.
pub fn hop_swap(
    requests: Vec<SwapRequest>,
    offer_asset: String,
    prev_ask_amount: u128,
    recipient: String,
    minimum_receive: u128,
    asset_balance: u128,
    ask_balance: u128,
) -> (r: Result<HopAction, ContractError>)
    requires
        asset_balance >= prev_ask_amount,
    ensures
        hop_swap_done(
            requests@,
            offer_asset,
            prev_ask_amount,
            recipient,
            minimum_receive,
            asset_balance,
            ask_balance,
            r,
        ),
{
    let amount = asset_balance - prev_ask_amount;
    if requests.len() == 0 {
        if amount < minimum_receive {
            return Err(ContractError::MinimumReceiveNotMet);
        }
        return Ok(HopAction::Send(Transfer { recipient, coin: Coin { denom: offer_asset, amount } }));
    }
    if offer_asset != requests[0].asset_in {
        return Err(ContractError::HopAssetMismatch);
    }
    let mut requests = requests;
    let next_hop = requests.remove(0);
    let swap = SwapOrder {
        pool_id: next_hop.pool_id,
        token_in: Coin { denom: next_hop.asset_in, amount },
        token_out: Coin { denom: next_hop.asset_out.clone(), amount: 1 },
        slippage: HOP_SLIPPAGE,
    };
    let next = HopSwapMsg {
        requests,
        offer_asset: next_hop.asset_out,
        prev_ask_amount: ask_balance,
        recipient,
        minimum_receive,
    };
    Ok(HopAction::Swap(swap, next))
}

/// A callback from `sender` to the router at `contract`: runs the step `msg` where the
/// router sent it, else `ExternalCallback`.
pub fn handle_callback(
    sender: &String,
    contract: &String,
    msg: HopSwapMsg,
    asset_balance: u128,
    ask_balance: u128,
) -> (r: Result<HopAction, ContractError>)
    requires
        sender@ == contract@ ==> asset_balance >= msg.prev_ask_amount,
    ensures
        sender@ != contract@ ==> r == Err::<HopAction, ContractError>(
            ContractError::ExternalCallback,
        ),
        sender@ == contract@ ==> hop_swap_done(
            msg.requests@,
            msg.offer_asset,
            msg.prev_ask_amount,
            msg.recipient,
            msg.minimum_receive,
            asset_balance,
            ask_balance,
            r,
        ),
{
    if *sender != *contract {
        return Err(ContractError::ExternalCallback);
    }
    hop_swap(
        msg.requests,
        msg.offer_asset,
        msg.prev_ask_amount,
        msg.recipient,
        msg.minimum_receive,
        asset_balance,
        ask_balance,
    )
}

} // verus!
