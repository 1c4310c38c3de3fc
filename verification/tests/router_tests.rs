use side_contracts::coin::Coin;
use side_contracts::router::contract::{
    assert_requests, handle_callback, hop_swap, multi_swap, ContractError, HopAction, HopSwapMsg,
    SwapOrder, Transfer, HOP_SLIPPAGE, MAX_SWAP_OPERATIONS,
};
use side_contracts::router::msg::SwapRequest;

fn hop(pool: &str, asset_in: &str, asset_out: &str) -> SwapRequest {
    SwapRequest {
        pool_id: pool.to_string(),
        asset_in: asset_in.to_string(),
        asset_out: asset_out.to_string(),
        contract_address: None,
    }
}

fn coin(denom: &str, amount: u128) -> Coin {
    Coin { denom: denom.to_string(), amount }
}

#[test]
fn requests_must_chain() {
    assert!(assert_requests(&[hop("p1", "a", "b"), hop("p2", "b", "c")]).is_ok());
    assert!(assert_requests(&[hop("p1", "a", "b")]).is_ok());
    assert_eq!(
        assert_requests(&[hop("p1", "a", "b"), hop("p2", "c", "d")]).unwrap_err(),
        ContractError::BrokenRoute
    );
}

#[test]
fn multi_swap_starts_with_the_first_hop() {
    let requests = vec![hop("p1", "a", "b"), hop("p2", "b", "c")];
    let funds = vec![coin("x", 5), coin("a", 100)];
    let (swap, next) =
        multi_swap(requests, 90, &funds, "sender".to_string(), None, Some(7), 33).unwrap();
    assert_eq!(
        swap,
        SwapOrder { pool_id: "p1".to_string(), token_in: coin("a", 100), token_out: coin("b", 1), slippage: HOP_SLIPPAGE }
    );
    assert_eq!(next.requests, vec![hop("p2", "b", "c")]);
    assert_eq!(next.offer_asset, "b");
    assert_eq!(next.prev_ask_amount, 33);
    assert_eq!(next.recipient, "sender");
    assert_eq!(next.minimum_receive, 7);
}

#[test]
fn multi_swap_refusals() {
    let funds = vec![coin("a", 100)];
    assert_eq!(multi_swap(vec![], 1, &funds, "s".to_string(), None, None, 0).unwrap_err(), ContractError::NoHops);
    let many = vec![hop("p", "a", "a"); MAX_SWAP_OPERATIONS + 1];
    assert_eq!(multi_swap(many, 1, &funds, "s".to_string(), None, None, 0).unwrap_err(), ContractError::TooManyHops);
    let broken = vec![hop("p1", "a", "b"), hop("p2", "c", "d")];
    assert_eq!(multi_swap(broken, 1, &funds, "s".to_string(), None, None, 0).unwrap_err(), ContractError::BrokenRoute);
    let other = vec![hop("p1", "z", "b")];
    assert_eq!(multi_swap(other, 1, &funds, "s".to_string(), None, None, 0).unwrap_err(), ContractError::FundsNotSent);
    let one = vec![hop("p1", "a", "b")];
    assert_eq!(
        multi_swap(one.clone(), 101, &funds, "s".to_string(), None, None, 0).unwrap_err(),
        ContractError::OfferExceedsFunds
    );
    let (_, next) = multi_swap(one, 100, &funds, "s".to_string(), Some("r".to_string()), None, 0).unwrap();
    assert_eq!((next.recipient.as_str(), next.minimum_receive), ("r", 0));
}

#[test]
fn hops_continue_then_pay_out() {
    let action = hop_swap(vec![hop("p2", "b", "c")], "b".to_string(), 10, "r".to_string(), 5, 60, 4).unwrap();
    match action {
        HopAction::Swap(swap, next) => {
            assert_eq!(swap.token_in, coin("b", 50));
            assert_eq!(swap.token_out, coin("c", 1));
            assert!(next.requests.is_empty());
            assert_eq!((next.offer_asset.as_str(), next.prev_ask_amount), ("c", 4));
        },
        HopAction::Send(_) => panic!("expected a swap"),
    }
    let done = hop_swap(vec![], "c".to_string(), 4, "r".to_string(), 5, 10, 0).unwrap();
    assert_eq!(done, HopAction::Send(Transfer { recipient: "r".to_string(), coin: coin("c", 6) }));
    assert_eq!(
        hop_swap(vec![], "c".to_string(), 4, "r".to_string(), 7, 10, 0).unwrap_err(),
        ContractError::MinimumReceiveNotMet
    );
    assert_eq!(
        hop_swap(vec![hop("p", "x", "y")], "c".to_string(), 0, "r".to_string(), 0, 10, 0).unwrap_err(),
        ContractError::HopAssetMismatch
    );
}

#[test]
fn callbacks_only_from_the_router() {
    let msg = HopSwapMsg {
        requests: vec![],
        offer_asset: "c".to_string(),
        prev_ask_amount: 0,
        recipient: "r".to_string(),
        minimum_receive: 0,
    };
    assert_eq!(
        handle_callback(&"intruder".to_string(), &"router".to_string(), msg.clone(), 5, 0).unwrap_err(),
        ContractError::ExternalCallback
    );
    assert!(handle_callback(&"router".to_string(), &"router".to_string(), msg, 5, 0).is_ok());
}
